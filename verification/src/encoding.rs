//! Keys as byte strings whose lexicographic order is the order of what they encode.
//!
//! A key is a sequence of fields. An integer is eight bytes, most significant first.
//! A text or byte string is escaped (`00` becomes `00 ff`) and ends in `00 00`, so
//! that no field is a prefix of another.

use vstd::prelude::*;
use vstd::utf8::encode_utf8;

use crate::codec::{text_from_bytes, text_of, text_round_trip};
use crate::bytes::{copy_bytes, has_prefix, lex_le, lex_lt, lex_lt_common_prefix, lex_lt_extend};
use crate::bytes::{lex_lt_proper_extension, lex_lt_transitive};

verus! {

/// `n` in `w` bytes, most significant first.
pub open spec fn be(n: nat, w: nat) -> Seq<u8>
    decreases w,
{
    if w == 0 {
        Seq::empty()
    } else {
        be(n / 256, (w - 1) as nat).push((n % 256) as u8)
    }
}

/// The number that a byte string reads as, most significant byte first.
pub open spec fn be_value(s: Seq<u8>) -> nat
    decreases s.len(),
{
    if s.len() == 0 {
        0
    } else {
        be_value(s.drop_last()) * 256 + s.last() as nat
    }
}

/// How many numbers `w` bytes can tell apart.
pub open spec fn be_limit(w: nat) -> nat
    decreases w,
{
    if w == 0 {
        1
    } else {
        256 * be_limit((w - 1) as nat)
    }
}

/// A field of an integer key.
pub open spec fn be8(v: u64) -> Seq<u8> {
    be(v as nat, 8)
}

/// A field has the width that was asked for.
pub proof fn be_len(n: nat, w: nat)
    ensures
        be(n, w).len() == w,
    decreases w,
{
    if w > 0 {
        be_len(n / 256, (w - 1) as nat);
    }
}

/// Reading the big-endian form of a number gives the number back.
pub proof fn be_round_trip(n: nat, w: nat)
    requires
        n < be_limit(w),
    ensures
        be_value(be(n, w)) == n,
    decreases w,
{
    if w > 0 {
        be_round_trip(n / 256, (w - 1) as nat);
        assert(be(n, w).drop_last() =~= be(n / 256, (w - 1) as nat));
    }
}

/// A field holds no more than its width allows.
pub proof fn be_value_bound(s: Seq<u8>)
    ensures
        be_value(s) < be_limit(s.len()),
    decreases s.len(),
{
    if s.len() > 0 {
        be_value_bound(s.drop_last());
    }
}

/// Writing the number that a byte string reads as gives the byte string back.
pub proof fn be_of_be_value(s: Seq<u8>)
    ensures
        be(be_value(s), s.len()) == s,
    decreases s.len(),
{
    if s.len() > 0 {
        be_of_be_value(s.drop_last());
        assert(s =~= s.drop_last().push(s.last()));
    }
}

proof fn be_limit_8()
    ensures
        be_limit(8) == 0x1_0000_0000_0000_0000,
{
    reveal_with_fuel(be_limit, 9);
}

/// Eight-byte integer fields read back as the integer.
pub proof fn be8_round_trip(v: u64)
    ensures
        be_value(be8(v)) == v,
        be8(v).len() == 8,
{
    be_limit_8();
    be_len(v as nat, 8);
    be_round_trip(v as nat, 8);
}

/// Integer fields of the same width sort as the integers do.
pub proof fn be_order(a: nat, b: nat, w: nat)
    requires
        a < b < be_limit(w),
    ensures
        lex_lt(be(a, w), be(b, w)),
    decreases w,
{
    if w > 0 {
        let pa = be(a / 256, (w - 1) as nat);
        let pb = be(b / 256, (w - 1) as nat);
        let da = seq![(a % 256) as u8];
        let db = seq![(b % 256) as u8];
        be_len(a / 256, (w - 1) as nat);
        be_len(b / 256, (w - 1) as nat);
        assert(be(a, w) =~= pa + da);
        assert(be(b, w) =~= pb + db);
        if a / 256 < b / 256 {
            be_order(a / 256, b / 256, (w - 1) as nat);
            lex_lt_extend(pa, pb, da, db);
        } else {
            lex_lt_common_prefix(pa, da, db);
        }
    }
}

/// Integer keys sort as the integers do, whatever follows the integer.
pub proof fn be8_order(a: u64, b: u64, x: Seq<u8>, y: Seq<u8>)
    requires
        a < b,
    ensures
        lex_lt(be8(a) + x, be8(b) + y),
{
    be_limit_8();
    be_order(a as nat, b as nat, 8);
    be_len(a as nat, 8);
    be_len(b as nat, 8);
    lex_lt_extend(be8(a), be8(b), x, y);
}

/// Different integers have different key fields.
pub proof fn be8_injective(a: u64, b: u64)
    requires
        be8(a) == be8(b),
    ensures
        a == b,
{
    be8_round_trip(a);
    be8_round_trip(b);
}

/// The field of a byte string: escaped, and ended by two zero bytes.
pub open spec fn escaped(s: Seq<u8>) -> Seq<u8>
    decreases s.len(),
{
    if s.len() == 0 {
        seq![0u8, 0u8]
    } else if s[0] == 0 {
        seq![0u8, 0xFFu8] + escaped(s.skip(1))
    } else {
        seq![s[0]] + escaped(s.skip(1))
    }
}

/// Reads an escaped field: the byte string it holds and the bytes it takes, or nothing
/// where the field is malformed or does not end.
pub open spec fn unescaped(s: Seq<u8>) -> Option<(Seq<u8>, nat)>
    decreases s.len(),
{
    if s.len() == 0 {
        None
    } else if s[0] != 0 {
        match unescaped(s.skip(1)) {
            Some((v, n)) => Some((seq![s[0]] + v, n + 1)),
            None => None,
        }
    } else if s.len() == 1 {
        None
    } else if s[1] == 0 {
        Some((Seq::empty(), 2))
    } else if s[1] == 0xFF {
        match unescaped(s.skip(2)) {
            Some((v, n)) => Some((seq![0u8] + v, n + 2)),
            None => None,
        }
    } else {
        None
    }
}

/// A byte string is read back from its field, and nothing that follows is consumed.
pub proof fn escaped_round_trip(s: Seq<u8>, rest: Seq<u8>)
    ensures
        unescaped(escaped(s) + rest) == Some((s, escaped(s).len())),
    decreases s.len(),
{
    let e = escaped(s) + rest;
    if s.len() == 0 {
        assert(s =~= Seq::empty());
    } else {
        escaped_round_trip(s.skip(1), rest);
        assert(s =~= seq![s[0]] + s.skip(1));
        if s[0] == 0 {
            assert(e.skip(2) =~= escaped(s.skip(1)) + rest);
        } else {
            assert(e.skip(1) =~= escaped(s.skip(1)) + rest);
        }
    }
}

/// Fields of byte strings sort as the byte strings do, whatever follows them.
pub proof fn escaped_order(a: Seq<u8>, b: Seq<u8>, x: Seq<u8>, y: Seq<u8>)
    requires
        lex_lt(a, b),
    ensures
        lex_lt(escaped(a) + x, escaped(b) + y),
    decreases a.len(),
{
    let ea = escaped(a) + x;
    let eb = escaped(b) + y;
    if a.len() == 0 {
        if b[0] == 0 {
            assert(ea.skip(1)[0] == 0 && eb.skip(1)[0] == 0xFF);
            assert(lex_lt(ea.skip(1), eb.skip(1)));
        }
    } else if a[0] == b[0] {
        escaped_order(a.skip(1), b.skip(1), x, y);
        if a[0] == 0 {
            let p = seq![0u8, 0xFFu8];
            assert(ea =~= p + (escaped(a.skip(1)) + x));
            assert(eb =~= p + (escaped(b.skip(1)) + y));
            lex_lt_common_prefix(p, escaped(a.skip(1)) + x, escaped(b.skip(1)) + y);
        } else {
            let p = seq![a[0]];
            assert(ea =~= p + (escaped(a.skip(1)) + x));
            assert(eb =~= p + (escaped(b.skip(1)) + y));
            lex_lt_common_prefix(p, escaped(a.skip(1)) + x, escaped(b.skip(1)) + y);
        }
    }
}

/// Keys that go on after a byte string differ whenever the byte strings do.
pub proof fn escaped_injective(a: Seq<u8>, b: Seq<u8>, x: Seq<u8>, y: Seq<u8>)
    requires
        escaped(a) + x == escaped(b) + y,
    ensures
        a == b,
        x == y,
{
    escaped_round_trip(a, x);
    escaped_round_trip(b, y);
    assert(x =~= (escaped(a) + x).skip(escaped(a).len() as int));
    assert(y =~= (escaped(b) + y).skip(escaped(b).len() as int));
}

/// The least byte string that follows every byte string with the prefix `p`; there is
/// none when `p` holds nothing but `ff`.
pub open spec fn upper_bound(p: Seq<u8>) -> Option<Seq<u8>>
    decreases p.len(),
{
    if p.len() == 0 {
        None
    } else if p.last() < 0xFF {
        Some(p.drop_last().push((p.last() + 1) as u8))
    } else {
        upper_bound(p.drop_last())
    }
}

proof fn between_extensions(q: Seq<u8>, a: Seq<u8>, k: Seq<u8>, b: Seq<u8>)
    requires
        lex_le(q + a, k),
        lex_lt(k, q + b),
    ensures
        has_prefix(k, q),
    decreases q.len(),
{
    if q.len() > 0 {
        let qa = q + a;
        let qb = q + b;
        assert(qa.skip(1) =~= q.skip(1) + a);
        assert(qb.skip(1) =~= q.skip(1) + b);
        assert(k.len() > 0);
        assert(k[0] == q[0]);
        between_extensions(q.skip(1), a, k.skip(1), b);
        assert(k.take(q.len() as int) =~= seq![k[0]] + k.skip(1).take(q.len() - 1));
        assert(q =~= seq![q[0]] + q.skip(1));
    } else {
        assert(k.take(0) =~= q);
    }
}

/// The keys with a prefix are those from the prefix on, up to the prefix's upper bound.
pub proof fn upper_bound_delimits_prefix(p: Seq<u8>, k: Seq<u8>)
    ensures
        has_prefix(k, p) <==> lex_le(p, k) && (upper_bound(p) matches Some(u) ==> lex_lt(k, u)),
    decreases p.len(),
{
    if p.len() == 0 {
        assert(k.take(0) =~= p);
        if k.len() == 0 {
            assert(k =~= p);
        }
    } else {
        let q = p.drop_last();
        let c = seq![p.last()];
        assert(p =~= q + c);
        if has_prefix(k, p) {
            let r = k.skip(p.len() as int);
            assert(k =~= p + r);
            if r.len() > 0 {
                lex_lt_proper_extension(p, r);
            } else {
                assert(k =~= p);
            }
            assert(k =~= q + (c + r));
            if p.last() < 0xFF {
                let d = seq![(p.last() + 1) as u8];
                assert(upper_bound(p) == Some(q + d)) by {
                    assert(q.push((p.last() + 1) as u8) =~= q + d);
                }
                lex_lt_common_prefix(q, c + r, d);
            } else {
                assert(k.take(q.len() as int) =~= q);
                upper_bound_delimits_prefix(q, k);
            }
        }
        if lex_le(p, k) && (upper_bound(p) matches Some(u) ==> lex_lt(k, u)) {
            if p.last() < 0xFF {
                let d = seq![(p.last() + 1) as u8];
                assert(q.push((p.last() + 1) as u8) =~= q + d);
                between_extensions(q, c, k, d);
                let r = k.skip(q.len() as int);
                assert(k =~= q + r);
                lex_lt_common_prefix(q, c, r);
                lex_lt_common_prefix(q, r, d);
                if k == p {
                    assert(r =~= c);
                }
                assert(d.skip(1).len() == 0 && !lex_lt(r.skip(1), d.skip(1)));
                assert(r.len() > 0 && r[0] == p.last());
                assert(k.take(p.len() as int) =~= p);
            } else {
                lex_lt_proper_extension(q, c);
                if k != p {
                    lex_lt_transitive(q, p, k);
                }
                upper_bound_delimits_prefix(q, k);
                let r = k.skip(q.len() as int);
                assert(k =~= q + r);
                lex_lt_common_prefix(q, c, r);
                if k == p {
                    assert(r =~= c);
                }
                assert(r.len() > 0 && r[0] == p.last());
                assert(k.take(p.len() as int) =~= p);
            }
        }
    }
}

/// A byte string that starts with anything but `ff` has an upper bound.
pub proof fn upper_bound_exists(p: Seq<u8>)
    requires
        p.len() > 0,
        p[0] < 0xFF,
    ensures
        upper_bound(p) is Some,
    decreases p.len(),
{
    if p.len() > 1 && p.last() == 0xFF {
        upper_bound_exists(p.drop_last());
    }
}

/// The least byte string past every key with the given prefix.
pub fn exclusive_upper_bound(prefix: &[u8]) -> (r: Option<Vec<u8>>)
    ensures
        match upper_bound(prefix@) {
            Some(u) => r is Some && r->0@ == u,
            None => r is None,
        },
{
    let mut n: usize = prefix.len();
    assert(prefix@.take(n as int) =~= prefix@);
    while n > 0
        invariant
            n <= prefix@.len(),
            upper_bound(prefix@) == upper_bound(prefix@.take(n as int)),
        decreases n,
    {
        let last: u8 = prefix[n - 1];
        assert(prefix@.take(n as int).drop_last() =~= prefix@.take(n - 1));
        if last < 0xFF {
            let mut out: Vec<u8> = copy_bytes(vstd::slice::slice_subrange(prefix, 0, n - 1));
            out.push(last + 1);
            assert(out@ =~= prefix@.take(n - 1).push((last + 1) as u8));
            return Some(out);
        }
        n = n - 1;
    }
    None
}

/// Builds a key field by field.
pub struct KeyBuilder {
    buf: Vec<u8>,
}

impl View for KeyBuilder {
    type V = Seq<u8>;

    closed spec fn view(&self) -> Seq<u8> {
        self.buf@
    }
}

impl KeyBuilder {
    pub fn new() -> (r: KeyBuilder)
        ensures
            r@ == Seq::<u8>::empty(),
    {
        KeyBuilder { buf: Vec::new() }
    }

    pub fn tag(self, tag: u8) -> (r: KeyBuilder)
        ensures
            r@ == self@.push(tag),
    {
        let mut buf = self.buf;
        buf.push(tag);
        KeyBuilder { buf }
    }

    pub fn u64(self, v: u64) -> (r: KeyBuilder)
        ensures
            r@ == self@ + be8(v),
    {
        let mut buf = self.buf;
        push_be(&mut buf, v, 8);
        KeyBuilder { buf }
    }

    pub fn bytes(self, s: &[u8]) -> (r: KeyBuilder)
        ensures
            r@ == self@ + escaped(s@),
    {
        let mut buf = self.buf;
        let mut i: usize = 0;
        assert(s@.skip(0) =~= s@);
        while i < s.len()
            invariant
                i <= s.len(),
                self@ + escaped(s@) == buf@ + escaped(s@.skip(i as int)),
            decreases s.len() - i,
        {
            assert(s@.skip(i as int).skip(1) =~= s@.skip(i + 1));
            let b: u8 = s[i];
            let ghost before = buf@;
            buf.push(b);
            if b == 0 {
                buf.push(0xFF);
                assert(buf@ + escaped(s@.skip(i + 1)) =~= before + escaped(s@.skip(i as int)));
            } else {
                assert(buf@ + escaped(s@.skip(i + 1)) =~= before + escaped(s@.skip(i as int)));
            }
            i = i + 1;
        }
        let ghost before = buf@;
        buf.push(0);
        buf.push(0);
        assert(buf@ =~= before + escaped(s@.skip(i as int)));
        KeyBuilder { buf }
    }

    pub fn string(self, s: &str) -> (r: KeyBuilder)
        ensures
            r@ == self@ + escaped(vstd::utf8::encode_utf8(s@)),
    {
        self.bytes(s.as_bytes())
    }

    pub fn build(self) -> (r: Vec<u8>)
        ensures
            r@ == self@,
    {
        self.buf
    }
}

/// Appends `v` in `w` bytes, most significant first.
pub fn push_be(buf: &mut Vec<u8>, v: u64, w: usize)
    ensures
        final(buf)@ == old(buf)@ + be(v as nat, w as nat),
    decreases w,
{
    if w > 0 {
        push_be(buf, v / 256, w - 1);
        buf.push((v % 256) as u8);
    }
}

/// Reads eight bytes as an integer, most significant first.
pub fn read_be8(s: &[u8]) -> (r: u64)
    requires
        s@.len() == 8,
    ensures
        r == be_value(s@),
{
    let mut v: u64 = 0;
    let mut i: usize = 0;
    while i < 8
        invariant
            i <= 8,
            s@.len() == 8,
            v == be_value(s@.take(i as int)),
        decreases 8 - i,
    {
        assert(s@.take(i + 1).drop_last() =~= s@.take(i as int));
        proof {
            be_value_bound(s@.take(i + 1));
            reveal_with_fuel(be_limit, 9);
        }
        v = v * 256 + s[i] as u64;
        i = i + 1;
    }
    assert(s@.take(8) =~= s@);
    v
}

/// Reads a key field by field. A field that cannot be read leaves the reader where it
/// was.
pub struct KeyReader<'a> {
    rest: &'a [u8],
}

impl<'a> View for KeyReader<'a> {
    type V = Seq<u8>;

    closed spec fn view(&self) -> Seq<u8> {
        self.rest@
    }
}

impl<'a> KeyReader<'a> {
    pub fn new(key: &'a [u8]) -> (r: KeyReader<'a>)
        ensures
            r@ == key@,
    {
        KeyReader { rest: key }
    }

    pub fn is_empty(&self) -> (r: bool)
        ensures
            r == (self@.len() == 0),
    {
        self.rest.len() == 0
    }

    pub fn tag(&mut self) -> (r: Option<u8>)
        ensures
            old(self)@.len() == 0 ==> r is None && final(self)@ == old(self)@,
            old(self)@.len() > 0 ==> r == Some(old(self)@[0]) && final(self)@ == old(self)@.skip(1),
    {
        if self.rest.len() == 0 {
            None
        } else {
            let t: u8 = self.rest[0];
            self.rest = vstd::slice::slice_subrange(self.rest, 1, self.rest.len());
            Some(t)
        }
    }

    pub fn u64(&mut self) -> (r: Option<u64>)
        ensures
            old(self)@.len() < 8 ==> r is None && final(self)@ == old(self)@,
            old(self)@.len() >= 8 ==> r == Some(be_value(old(self)@.take(8)) as u64)
                && be_value(old(self)@.take(8)) <= u64::MAX && final(self)@ == old(self)@.skip(8),
    {
        if self.rest.len() < 8 {
            None
        } else {
            let v: u64 = read_be8(vstd::slice::slice_subrange(self.rest, 0, 8));
            self.rest = vstd::slice::slice_subrange(self.rest, 8, self.rest.len());
            Some(v)
        }
    }

    pub fn bytes(&mut self) -> (r: Option<Vec<u8>>)
        ensures
            match unescaped(old(self)@) {
                Some((v, n)) => r is Some && r->0@ == v && final(self)@ == old(self)@.skip(n as int),
                None => r is None && final(self)@ == old(self)@,
            },
    {
        let mut out: Vec<u8> = Vec::new();
        let mut i: usize = 0;
        assert(self.rest@.skip(0) =~= self.rest@);
        proof {
            unescaped_len(self.rest@);
            if let Some((v, n)) = unescaped(self.rest@) {
                assert(out@ + v =~= v);
            }
        }
        loop
            invariant
                i <= self.rest@.len(),
                self.rest@ == old(self)@,
                match unescaped(self.rest@.skip(i as int)) {
                    Some((v, n)) => i + n <= self.rest@.len() && unescaped(old(self)@) == Some(
                        (out@ + v, (i + n) as nat),
                    ),
                    None => unescaped(old(self)@) is None,
                },
            decreases self.rest@.len() - i,
        {
            let ghost s = self.rest@.skip(i as int);
            if i == self.rest.len() {
                return None;
            }
            let b: u8 = self.rest[i];
            if b != 0 {
                assert(s.skip(1) =~= self.rest@.skip(i + 1));
                let ghost before = out@;
                out.push(b);
                proof {
                    if let Some((v, n)) = unescaped(s.skip(1)) {
                        unescaped_len(s.skip(1));
                        assert(out@ + v =~= before + (seq![b] + v));
                    }
                }
                i = i + 1;
            } else if i + 1 == self.rest.len() {
                return None;
            } else {
                let c: u8 = self.rest[i + 1];
                if c == 0 {
                    self.rest = vstd::slice::slice_subrange(self.rest, i + 2, self.rest.len());
                    assert(out@ + Seq::<u8>::empty() =~= out@);
                    return Some(out);
                } else if c == 0xFF {
                    assert(s.skip(2) =~= self.rest@.skip(i + 2));
                    let ghost before = out@;
                    out.push(0);
                    proof {
                        if let Some((v, n)) = unescaped(s.skip(2)) {
                            unescaped_len(s.skip(2));
                            assert(out@ + v =~= before + (seq![0u8] + v));
                        }
                    }
                    i = i + 2;
                } else {
                    return None;
                }
            }
        }
    }
}

impl<'a> KeyReader<'a> {
    /// Reads a text field.
    pub fn string(&mut self) -> (r: Option<String>)
        ensures
            match unescaped(old(self)@) {
                Some((v, n)) => match text_of(v) {
                    Some(t) => r is Some && r->0@ == t && final(self)@ == old(self)@.skip(n as int),
                    None => r is None && final(self)@ == old(self)@,
                },
                None => r is None && final(self)@ == old(self)@,
            },
    {
        let start: &'a [u8] = self.rest;
        match self.bytes() {
            Some(b) => match text_from_bytes(b.as_slice()) {
                Some(t) => Some(t),
                None => {
                    self.rest = start;
                    None
                },
            },
            None => None,
        }
    }
}

/// The second integer of a key: what stands after its tag and its first integer.
pub open spec fn second_number(key: Seq<u8>) -> Option<u64> {
    let after_tag = if key.len() > 0 {
        key.skip(1)
    } else {
        key
    };
    let after_first = if after_tag.len() >= 8 {
        after_tag.skip(8)
    } else {
        after_tag
    };
    if after_first.len() >= 8 {
        Some(be_value(after_first.take(8)) as u64)
    } else {
        None
    }
}

pub fn read_second_number(key: &[u8]) -> (r: Option<u64>)
    ensures
        r == second_number(key@),
{
    let mut reader: KeyReader<'_> = KeyReader::new(key);
    let _ = reader.tag();
    let _ = reader.u64();
    reader.u64()
}

/// The second text of a key: what stands after its tag and its first byte string.
pub open spec fn second_text(key: Seq<u8>) -> Option<Seq<char>> {
    let after_tag = if key.len() > 0 {
        key.skip(1)
    } else {
        key
    };
    let after_first = match unescaped(after_tag) {
        Some((_, n)) => after_tag.skip(n as int),
        None => after_tag,
    };
    match unescaped(after_first) {
        Some((v, _)) => text_of(v),
        None => None,
    }
}

pub fn read_second_text(key: &[u8]) -> (r: Option<String>)
    ensures
        r.deep_view() == second_text(key@),
{
    let mut reader: KeyReader<'_> = KeyReader::new(key);
    let _ = reader.tag();
    let _ = reader.bytes();
    reader.string()
}

/// The second text of a key is read back.
pub proof fn second_text_round_trip(tag: u8, first: Seq<u8>, text: Seq<char>)
    ensures
        second_text(seq![tag] + escaped(first) + escaped(encode_utf8(text))) == Some(text),
{
    let none = Seq::<u8>::empty();
    let second = escaped(encode_utf8(text));
    let key = seq![tag] + escaped(first) + second;
    text_round_trip(text);
    escaped_round_trip(first, second);
    escaped_round_trip(encode_utf8(text), none);
    assert(key.skip(1) =~= escaped(first) + second);
    assert((escaped(first) + second).skip(escaped(first).len() as int) =~= second);
    assert(second + none =~= second);
}

/// The second integer of a key is read back.
pub proof fn second_number_round_trip(tag: u8, a: u64, b: u64)
    ensures
        second_number(seq![tag] + be8(a) + be8(b)) == Some(b),
{
    let key = seq![tag] + be8(a) + be8(b);
    be8_round_trip(a);
    be8_round_trip(b);
    assert(key.skip(1).skip(8).take(8) =~= be8(b));
}

/// A byte string field ends within the bytes that it is read from.
pub proof fn unescaped_len(s: Seq<u8>)
    ensures
        unescaped(s) matches Some((v, n)) ==> n <= s.len(),
    decreases s.len(),
{
    if s.len() > 0 {
        if s[0] != 0 {
            unescaped_len(s.skip(1));
        } else if s.len() > 1 && s[1] == 0xFF {
            unescaped_len(s.skip(2));
        }
    }
}

} // verus!
