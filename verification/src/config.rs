//! How much memory the store may use for its cache.

use vstd::prelude::*;

verus! {

/// The most that the cache may take: 4 GiB.
pub const MAX_CACHE_BYTES: u64 = 4_294_967_296;

/// The memory that a machine is taken to have when it does not say: 4 GiB.
pub const DEFAULT_RAM_BYTES: u64 = 4_294_967_296;

#[derive(Debug, Clone, Copy, PartialEq, Eq, Structural)]
pub struct MetastoreConfig {
    pub cache_size_bytes: u64,
}

/// A fifth of the memory, up to the limit.
pub open spec fn cache_size(total_ram: u64) -> u64 {
    if total_ram / 5 <= MAX_CACHE_BYTES {
        total_ram / 5
    } else {
        MAX_CACHE_BYTES
    }
}

impl MetastoreConfig {
    /// The configuration for a machine with the given memory.
    pub fn for_total_ram(total_ram: u64) -> (r: MetastoreConfig)
        ensures
            r.cache_size_bytes == cache_size(total_ram),
    {
        let fifth: u64 = total_ram / 5;
        MetastoreConfig {
            cache_size_bytes: if fifth <= MAX_CACHE_BYTES {
                fifth
            } else {
                MAX_CACHE_BYTES
            },
        }
    }

    /// The configuration for a machine that reports its memory in the form of Linux's
    /// `/proc/meminfo`, or not at all.
    pub fn for_meminfo(contents: Option<&str>) -> (r: MetastoreConfig)
        ensures
            r.cache_size_bytes == cache_size(
                match contents {
                    Some(t) => total_ram(t@),
                    None => DEFAULT_RAM_BYTES,
                },
            ),
    {
        match contents {
            Some(t) => MetastoreConfig::for_total_ram(total_ram_bytes(t)),
            None => MetastoreConfig::for_total_ram(DEFAULT_RAM_BYTES),
        }
    }
}

/// The cache never takes more than the limit, nor more than a fifth of the memory.
pub proof fn cache_size_bounded(total_ram: u64)
    ensures
        cache_size(total_ram) <= MAX_CACHE_BYTES,
        cache_size(total_ram) <= total_ram / 5,
        total_ram >= 5 ==> cache_size(total_ram) > 0,
{
}

pub open spec fn is_space(c: char) -> bool {
    ||| '\u{9}' <= c <= '\u{d}'
    ||| c == '\u{20}'
    ||| c == '\u{85}'
    ||| c == '\u{a0}'
    ||| c == '\u{1680}'
    ||| '\u{2000}' <= c <= '\u{200a}'
    ||| c == '\u{2028}'
    ||| c == '\u{2029}'
    ||| c == '\u{202f}'
    ||| c == '\u{205f}'
    ||| c == '\u{3000}'
}

fn space(c: char) -> (r: bool)
    ensures
        r == is_space(c),
{
    ('\u{9}' <= c && c <= '\u{d}') || c == '\u{20}' || c == '\u{85}' || c == '\u{a0}' || c
        == '\u{1680}' || ('\u{2000}' <= c && c <= '\u{200a}') || c == '\u{2028}' || c == '\u{2029}'
        || c == '\u{202f}' || c == '\u{205f}' || c == '\u{3000}'
}

/// Where the first line of a text ends.
pub open spec fn line_end(t: Seq<char>) -> nat
    decreases t.len(),
{
    if t.len() == 0 || t[0] == '\n' {
        0
    } else {
        1 + line_end(t.skip(1))
    }
}

pub open spec fn begins(t: Seq<char>, p: Seq<char>) -> bool {
    p.len() <= t.len() && t.take(p.len() as int) == p
}

/// The first line that starts with `p`.
pub open spec fn line_with(t: Seq<char>, p: Seq<char>) -> Option<Seq<char>>
    decreases t.len(),
{
    let n = line_end(t);
    if begins(t.take(n as int), p) {
        Some(t.take(n as int))
    } else if n >= t.len() {
        None
    } else {
        line_with(t.skip(n as int + 1), p)
    }
}

/// A text without the white space at its start.
pub open spec fn trimmed(t: Seq<char>) -> Seq<char>
    decreases t.len(),
{
    if t.len() > 0 && is_space(t[0]) {
        trimmed(t.skip(1))
    } else {
        t
    }
}

/// Where the word at the start of a text ends.
pub open spec fn word_end(t: Seq<char>) -> nat
    decreases t.len(),
{
    if t.len() == 0 || is_space(t[0]) {
        0
    } else {
        1 + word_end(t.skip(1))
    }
}

/// The second word of a line, empty where there is none.
pub open spec fn second_word(line: Seq<char>) -> Seq<char> {
    let first = trimmed(line);
    let second = trimmed(first.skip(word_end(first) as int));
    second.take(word_end(second) as int)
}

pub open spec fn is_digit(c: char) -> bool {
    '0' <= c <= '9'
}

pub open spec fn digits_value(t: Seq<char>) -> nat
    decreases t.len(),
{
    if t.len() == 0 {
        0
    } else {
        10 * digits_value(t.drop_last()) + (t.last() as nat - '0' as nat) as nat
    }
}

/// A decimal number that fits 64 bits.
pub open spec fn number(d: Seq<char>) -> Option<u64> {
    if d.len() > 0 && (forall|i: int| 0 <= i < d.len() ==> is_digit(#[trigger] d[i]))
        && digits_value(d) <= u64::MAX {
        Some(digits_value(d) as u64)
    } else {
        None
    }
}

/// A decimal number with or without a plus sign.
pub open spec fn parsed(w: Seq<char>) -> Option<u64> {
    if w.len() > 0 && w[0] == '+' {
        number(w.skip(1))
    } else {
        number(w)
    }
}

/// The memory that a report gives: the second word of the line `MemTotal:`, in KiB. A
/// report without such a number counts as none.
pub open spec fn total_ram(report: Seq<char>) -> u64 {
    match line_with(report, "MemTotal:"@) {
        Some(line) => match parsed(second_word(line)) {
            Some(kb) => if kb * 1024 <= u64::MAX {
                (kb * 1024) as u64
            } else {
                u64::MAX
            },
            None => DEFAULT_RAM_BYTES,
        },
        None => DEFAULT_RAM_BYTES,
    }
}

fn chars_of(t: &str) -> (r: Vec<char>)
    ensures
        r@ == t@,
{
    let mut out: Vec<char> = Vec::new();
    let n: usize = t.unicode_len();
    let mut i: usize = 0;
    while i < n
        invariant
            i <= n,
            n == t@.len(),
            out@ == t@.take(i as int),
        decreases n - i,
    {
        out.push(t.get_char(i));
        assert(out@ =~= t@.take(i + 1));
        i = i + 1;
    }
    assert(t@.take(n as int) =~= t@);
    out
}

fn find_line_end(t: &Vec<char>, from: usize) -> (r: usize)
    requires
        from <= t@.len(),
    ensures
        r == from + line_end(t@.skip(from as int)),
        r <= t@.len(),
{
    let mut i: usize = from;
    while i < t.len() && t[i] != '\n'
        invariant
            from <= i <= t@.len(),
            from + line_end(t@.skip(from as int)) == i + line_end(t@.skip(i as int)),
        decreases t.len() - i,
    {
        assert(t@.skip(i as int).skip(1) =~= t@.skip(i + 1));
        i = i + 1;
    }
    i
}

fn skip_spaces(t: &Vec<char>, from: usize, to: usize) -> (r: usize)
    requires
        from <= to <= t@.len(),
    ensures
        from <= r <= to,
        t@.subrange(r as int, to as int) == trimmed(t@.subrange(from as int, to as int)),
{
    let mut i: usize = from;
    while i < to && space(t[i])
        invariant
            from <= i <= to <= t@.len(),
            trimmed(t@.subrange(i as int, to as int)) == trimmed(
                t@.subrange(from as int, to as int),
            ),
        decreases to - i,
    {
        assert(t@.subrange(i as int, to as int).skip(1) =~= t@.subrange(i + 1, to as int));
        i = i + 1;
    }
    i
}

fn skip_word(t: &Vec<char>, from: usize, to: usize) -> (r: usize)
    requires
        from <= to <= t@.len(),
    ensures
        from <= r <= to,
        r == from + word_end(t@.subrange(from as int, to as int)),
{
    let mut i: usize = from;
    while i < to && !space(t[i])
        invariant
            from <= i <= to <= t@.len(),
            from + word_end(t@.subrange(from as int, to as int)) == i + word_end(
                t@.subrange(i as int, to as int),
            ),
        decreases to - i,
    {
        assert(t@.subrange(i as int, to as int).skip(1) =~= t@.subrange(i + 1, to as int));
        i = i + 1;
    }
    i
}

proof fn digits_value_grows(t: Seq<char>, n: int)
    requires
        0 <= n <= t.len(),
        forall|i: int| 0 <= i < t.len() ==> is_digit(#[trigger] t[i]),
    ensures
        digits_value(t.take(n)) <= digits_value(t),
    decreases t.len() - n,
{
    if n < t.len() {
        assert(t.take(n + 1).drop_last() =~= t.take(n));
        digits_value_grows(t, n + 1);
    } else {
        assert(t.take(n) =~= t);
    }
}

fn parse_u64(t: &Vec<char>, from: usize, to: usize) -> (r: Option<u64>)
    requires
        from <= to <= t@.len(),
    ensures
        r == parsed(t@.subrange(from as int, to as int)),
{
    let ghost w = t@.subrange(from as int, to as int);
    let mut start: usize = from;
    if from < to && t[from] == '+' {
        start = from + 1;
        assert(w.skip(1) =~= t@.subrange(start as int, to as int));
    }
    let ghost d = t@.subrange(start as int, to as int);
    if start == to {
        return None;
    }
    let mut v: u64 = 0;
    let mut i: usize = start;
    while i < to
        invariant
            start <= i <= to <= t@.len(),
            d == t@.subrange(start as int, to as int),
            d.len() > 0,
            w == t@.subrange(from as int, to as int),
            parsed(w) == number(d),
            forall|k: int| 0 <= k < i - start ==> is_digit(#[trigger] d[k]),
            v == digits_value(d.take(i - start)),
        decreases to - i,
    {
        let c: char = t[i];
        assert(d[i - start] == c);
        if !('0' <= c && c <= '9') {
            return None;
        }
        let digit: u64 = (c as u64) - ('0' as u64);
        let ghost k = i - start;
        assert(d.take(k + 1).drop_last() =~= d.take(k));
        proof {
            if forall|j: int| 0 <= j < d.len() ==> is_digit(#[trigger] d[j]) {
                digits_value_grows(d, k + 1);
            }
        }
        if v > (u64::MAX - digit) / 10 {
            return None;
        }
        v = v * 10 + digit;
        i = i + 1;
    }
    assert(d.take(i - start) =~= d);
    Some(v)
}

/// Reads the memory from a report.
pub fn total_ram_bytes(report: &str) -> (r: u64)
    ensures
        r == total_ram(report@),
{
    let t: Vec<char> = chars_of(report);
    let p: Vec<char> = chars_of("MemTotal:");
    let mut from: usize = 0;
    assert(t@.skip(0) =~= t@);
    loop
        invariant
            from <= t@.len(),
            t@ == report@,
            p@ == "MemTotal:"@,
            line_with(report@, "MemTotal:"@) == line_with(t@.skip(from as int), "MemTotal:"@),
        decreases t@.len() - from,
    {
        let end: usize = find_line_end(&t, from);
        let ghost line = t@.skip(from as int).take(end - from);
        assert(line =~= t@.subrange(from as int, end as int));
        let mut same: bool = p.len() <= end - from;
        let mut k: usize = 0;
        while same && k < p.len()
            invariant
                k <= p@.len(),
                from <= end <= t@.len(),
                line == t@.subrange(from as int, end as int),
                same ==> p@.len() <= line.len(),
                same ==> forall|j: int| 0 <= j < k ==> line[j] == p@[j],
                !same ==> !begins(line, p@),
            decreases p.len() - k,
        {
            if t[from + k] != p[k] {
                assert(line.take(p@.len() as int)[k as int] != p@[k as int]);
                same = false;
            }
            k = k + 1;
        }
        if same {
            assert(line.take(p@.len() as int) =~= p@);
            let first: usize = skip_spaces(&t, from, end);
            let after: usize = skip_word(&t, first, end);
            let second: usize = skip_spaces(&t, after, end);
            let stop: usize = skip_word(&t, second, end);
            proof {
                let f = trimmed(line);
                assert(f == t@.subrange(first as int, end as int));
                assert(f.skip(word_end(f) as int) =~= t@.subrange(after as int, end as int));
                let s = trimmed(f.skip(word_end(f) as int));
                assert(s == t@.subrange(second as int, end as int));
                assert(s.take(word_end(s) as int) =~= t@.subrange(second as int, stop as int));
            }
            return match parse_u64(&t, second, stop) {
                Some(kb) => if kb <= u64::MAX / 1024 {
                    kb * 1024
                } else {
                    u64::MAX
                },
                None => DEFAULT_RAM_BYTES,
            };
        }
        if end == t.len() {
            return DEFAULT_RAM_BYTES;
        }
        assert(t@.skip(from as int).skip(end - from + 1) =~= t@.skip(end + 1));
        from = end + 1;
    }
}

} // verus!
