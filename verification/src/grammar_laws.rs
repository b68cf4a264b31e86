//! How names, scopes, links and numbers are built and taken apart.

use vstd::prelude::*;

use crate::config::{digits_value, is_digit, is_space, line_end, line_with, parsed, second_word};
use crate::config::{total_ram, trimmed, word_end};
use crate::text::{decimal, hex};
use crate::types::{has_dot, is_alphanumeric, is_cid, is_did, is_did_byte, is_handle, is_last_dot};
use crate::types::{is_letter, is_lower, is_scope, is_scope_byte, Uuid};

verus! {

/// Scopes are lists of words with single spaces between them: two lists are one, with a space
/// between them, exactly where both are lists that are not empty.
pub proof fn scopes_are_lists(a: Seq<u8>, b: Seq<u8>)
    ensures
        is_scope(Seq::empty()),
        is_scope(a + seq![0x20u8] + b) <==> a.len() > 0 && b.len() > 0 && is_scope(a) && is_scope(b),
{
    let c = a + seq![0x20u8] + b;
    let n = a.len() as int;
    if is_scope(c) {
        assert(c[n] == 0x20);
        assert forall|i: int| 0 <= i < a.len() implies is_scope_byte(#[trigger] a[i]) || (a[i]
            == 0x20 && 0 < i < a.len() - 1 && a[i - 1] != 0x20) by {
            assert(c[i] == a[i]);
            if i > 0 {
                assert(c[i - 1] == a[i - 1]);
            }
        }
        assert forall|i: int| 0 <= i < b.len() implies is_scope_byte(#[trigger] b[i]) || (b[i]
            == 0x20 && 0 < i < b.len() - 1 && b[i - 1] != 0x20) by {
            assert(c[n + 1 + i] == b[i]);
            assert(c[n + i] == if i > 0 {
                b[i - 1]
            } else {
                0x20u8
            });
        }
    }
    if a.len() > 0 && b.len() > 0 && is_scope(a) && is_scope(b) {
        assert forall|i: int| 0 <= i < c.len() implies is_scope_byte(#[trigger] c[i]) || (c[i]
            == 0x20 && 0 < i < c.len() - 1 && c[i - 1] != 0x20) by {
            if i < n {
                assert(c[i] == a[i]);
                if i > 0 {
                    assert(c[i - 1] == a[i - 1]);
                }
            } else if i == n {
                assert(c[i - 1] == a[n - 1]);
                assert(is_scope_byte(a[n - 1]) || a[n - 1] == 0x20);
            } else {
                assert(c[i] == b[i - n - 1]);
                if i > n + 1 {
                    assert(c[i - 1] == b[i - n - 2]);
                }
            }
        }
    }
}

/// A scope of one byte is a visible character other than a quote or a backslash.
pub proof fn scopes_are_visible(c: u8)
    ensures
        is_scope(seq![c]) <==> 0x21 <= c <= 0x7E && c != 0x22 && c != 0x5C,
{
    assert(seq![c][0] == c);
}

/// A DID is `did:`, a method of lower-case letters, a colon, and an identifier of letters, digits
/// and `._:%-` that ends neither in a colon nor in a percent sign; it has no more than 2048 bytes.
pub proof fn dids_have_parts(method: Seq<u8>, id: Seq<u8>)
    ensures
        ({
            let b = seq![0x64u8, 0x69u8, 0x64u8, 0x3Au8] + method + seq![0x3Au8] + id;
            (forall|i: int| 0 <= i < method.len() ==> 0x61 <= #[trigger] method[i] <= 0x7A) ==> (is_did(
                b,
            ) <==> {
                &&& method.len() > 0
                &&& id.len() > 0
                &&& b.len() <= 2048
                &&& forall|i: int|
                    0 <= i < id.len() ==> (0x61 <= #[trigger] id[i] <= 0x7A || 0x41 <= id[i] <= 0x5A
                        || 0x30 <= id[i] <= 0x39 || id[i] == 0x2E || id[i] == 0x5F || id[i] == 0x3A
                        || id[i] == 0x25 || id[i] == 0x2D)
                &&& id.last() != 0x3A
                &&& id.last() != 0x25
            })
        }),
{
    let head = seq![0x64u8, 0x69u8, 0x64u8, 0x3Au8];
    let b = head + method + seq![0x3Au8] + id;
    let n = 4 + method.len() as int;
    assert(b.take(4) =~= head);
    assert(b[n] == 0x3A);
    assert forall|i: int| 0 <= i < id.len() implies b[n + 1 + i] == #[trigger] id[i] by {}
    assert forall|i: int| 0 <= i < method.len() implies b[4 + i] == #[trigger] method[i] by {}
    if forall|i: int| 0 <= i < method.len() ==> 0x61 <= #[trigger] method[i] <= 0x7A {
        if is_did(b) {
            let m = choose|m: int|
                {
                    &&& 4 < m < b.len() - 1
                    &&& #[trigger] b[m] == 0x3A
                    &&& forall|i: int| 4 <= i < m ==> is_lower(#[trigger] b[i])
                    &&& forall|i: int| m < i < b.len() ==> is_did_byte(#[trigger] b[i])
                };
            if m < n {
                assert(b[m] == method[m - 4]);
            } else if n < m {
                assert(is_lower(b[n]));
            }
            assert forall|i: int| 0 <= i < id.len() implies is_did_byte(#[trigger] id[i]) by {
                assert(b[n + 1 + i] == id[i]);
            }
            assert(b.last() == id.last());
        }
        if method.len() > 0 && id.len() > 0 && b.len() <= 2048 && id.last() != 0x3A && id.last()
            != 0x25 && forall|i: int| 0 <= i < id.len() ==> is_did_byte(#[trigger] id[i]) {
            assert(b.last() == id.last());
            assert forall|i: int| 4 <= i < n implies is_lower(#[trigger] b[i]) by {
                assert(b[i] == method[i - 4]);
            }
            assert forall|i: int| n < i < b.len() implies is_did_byte(#[trigger] b[i]) by {
                assert(b[i] == id[i - n - 1]);
            }
            assert(4 < n < b.len() - 1);
            assert(is_did(b));
        }
        assert forall|i: int| 0 <= i < id.len() implies (is_did_byte(#[trigger] id[i]) <==> (0x61
            <= id[i] <= 0x7A || 0x41 <= id[i] <= 0x5A || 0x30 <= id[i] <= 0x39 || id[i] == 0x2E
            || id[i] == 0x5F || id[i] == 0x3A || id[i] == 0x25 || id[i] == 0x2D)) by {}
    }
}

/// A label of a handle: up to 63 letters, digits and hyphens, none of the latter at an end.
pub open spec fn is_label(b: Seq<u8>) -> bool {
    &&& 0 < b.len() <= 63
    &&& forall|i: int|
        0 <= i < b.len() ==> (0x61 <= #[trigger] b[i] <= 0x7A || 0x41 <= b[i] <= 0x5A || 0x30
            <= b[i] <= 0x39 || b[i] == 0x2D)
    &&& b[0] != 0x2D
    &&& b.last() != 0x2D
}

/// Two labels with a dot between them are a handle where the second begins with a letter, and a
/// label with a dot before a handle is one, up to 253 bytes. What stands before the first dot of
/// a handle is a label.
#[verifier::spinoff_prover]
#[verifier::rlimit(60)]
pub proof fn handles_are_labels(a: Seq<u8>, b: Seq<u8>)
    ensures
        ({
            let c = a + seq![0x2Eu8] + b;
            &&& is_label(a) && is_label(b) && (0x61 <= b[0] <= 0x7A || 0x41 <= b[0] <= 0x5A)
                ==> is_handle(c)
            &&& is_label(a) && is_handle(b) && c.len() <= 253 ==> is_handle(c)
            &&& is_handle(c) && (forall|i: int| 0 <= i < a.len() ==> #[trigger] a[i] != 0x2E)
                ==> is_label(a)
        }),
        is_handle(b) ==> !is_label(b) && b.len() <= 253,
{
    let c = a + seq![0x2Eu8] + b;
    let n = a.len() as int;
    assert(c[n] == 0x2E);
    assert forall|i: int| 0 <= i < a.len() implies c[i] == #[trigger] a[i] by {}
    assert forall|i: int| 0 <= i < b.len() implies c[n + 1 + i] == #[trigger] b[i] by {}
    if is_label(a) && (is_handle(b) || is_label(b)) {
        assert forall|i: int| 0 <= i < c.len() implies is_alphanumeric(#[trigger] c[i]) || c[i]
            == 0x2D || c[i] == 0x2E by {
            if i < n {
                assert(c[i] == a[i]);
            } else if i > n {
                assert(c[i] == b[i - n - 1]);
            }
        }
        assert(c[0] == a[0] && c.last() == b.last());
        assert forall|i: int| 0 <= i < c.len() && #[trigger] c[i] == 0x2E implies 0 < i < c.len() - 1
            && is_alphanumeric(c[i - 1]) && is_alphanumeric(c[i + 1]) by {
            if i < n {
                assert(c[i] == a[i]);
            } else if i == n {
                assert(c[i - 1] == a[n - 1]);
                assert(c[i + 1] == b[0]);
            } else {
                let k = i - n - 1;
                assert(b[k] == 0x2E);
                assert(c[i - 1] == if k > 0 {
                    b[k - 1]
                } else {
                    0x2Eu8
                });
                assert(c[i + 1] == b[k + 1]);
            }
        }
        assert forall|i: int| 0 <= i && i + 64 <= c.len() implies #[trigger] has_dot(c, i, i + 64) by {
            if i <= n < i + 64 {
                assert(c[n] == 0x2E);
            } else if i > n {
                let k = i - n - 1;
                assert(has_dot(b, k, k + 64));
                let d = choose|d: int| k <= d < k + 64 && #[trigger] b[d] == 0x2E;
                assert(c[n + 1 + d] == 0x2E);
            }
        }
        if is_handle(b) {
            let d = choose|d: int| is_last_dot(b, d) && is_letter(b[d + 1]);
            assert(c[n + 1 + d] == 0x2E);
            assert(c[n + 2 + d] == b[d + 1]);
            assert forall|i: int| n + 1 + d < i < c.len() implies #[trigger] c[i] != 0x2E by {
                assert(c[i] == b[i - n - 1]);
            }
            assert(is_last_dot(c, n + 1 + d));
        } else {
            assert forall|i: int| n < i < c.len() implies #[trigger] c[i] != 0x2E by {
                assert(c[i] == b[i - n - 1]);
            }
            assert(is_last_dot(c, n));
            assert(c[n + 1] == b[0]);
        }
    }
    if is_handle(c) && (forall|i: int| 0 <= i < a.len() ==> #[trigger] a[i] != 0x2E) {
        assert(is_alphanumeric(c[n - 1]));
        if n >= 64 {
            let zero: int = 0;
            assert(has_dot(c, zero, zero + 64));
            let d = choose|d: int| 0 <= d < 64 && #[trigger] c[d] == 0x2E;
            assert(a[d] == 0x2E);
        }
        assert forall|i: int| 0 <= i < a.len() implies (is_alphanumeric(#[trigger] a[i]) || a[i]
            == 0x2D) by {
            assert(c[i] == a[i]);
        }
        assert(a[0] == c[0]);
        assert(a.last() == c[n - 1]);
    }
    if is_handle(b) {
        let d = choose|d: int| is_last_dot(b, d) && is_letter(b[d + 1]);
        assert(b[d] == 0x2E);
    }
}

/// A link by content is a version, a kind of content, a way of hashing, a length and a hash of 32
/// bytes.
pub proof fn links_have_parts(kind: u8, hash: Seq<u8>)
    ensures
        is_cid(seq![0x01u8, kind, 0x12u8, 0x20u8] + hash) <==> hash.len() == 32 && (kind == 0x55
            || kind == 0x71),
{
    let b = seq![0x01u8, kind, 0x12u8, 0x20u8] + hash;
    assert(b.len() == 4 + hash.len());
    assert(b.len() >= 4 ==> b[0] == 0x01 && b[1] == kind && b[2] == 0x12 && b[3] == 0x20);
}

/// A number is read from its decimal digits.
pub proof fn decimal_is_read(n: nat)
    ensures
        digits_value(decimal(n)) == n,
        decimal(n).len() > 0,
        forall|i: int| 0 <= i < decimal(n).len() ==> is_digit(#[trigger] decimal(n)[i]),
    decreases n,
{
    if n >= 10 {
        decimal_is_read(n / 10);
        let d = decimal(n);
        let t = decimal(n / 10);
        assert(d.drop_last() =~= t);
        assert forall|i: int| 0 <= i < d.len() implies is_digit(#[trigger] d[i]) by {
            if i < t.len() {
                assert(d[i] == t[i]);
            }
        }
    } else {
        let d = decimal(n);
        assert(d.drop_last() =~= Seq::empty());
        assert(digits_value(d.drop_last()) == 0);
    }
}

/// The text of an identifier has 36 characters, with hyphens after the eighth, the twelfth, the
/// sixteenth and the twentieth digit.
pub proof fn identifiers_have_hyphens(id: Uuid)
    ensures
        id.text().len() == 36,
        id.text()[8] == '-' && id.text()[13] == '-' && id.text()[18] == '-' && id.text()[23] == '-',
{
    reveal_strlit("-");
    hex_len(id.bits as nat / 0x1_0000_0000_0000_0000_0000_0000, 8);
    hex_len(id.bits as nat / 0x1_0000_0000_0000_0000_0000, 4);
    hex_len(id.bits as nat / 0x1_0000_0000_0000_0000, 4);
    hex_len(id.bits as nat / 0x1_0000_0000_0000, 4);
    hex_len(id.bits as nat, 12);
}

proof fn hex_len(n: nat, w: nat)
    ensures
        hex(n, w).len() == w,
    decreases w,
{
    if w > 0 {
        hex_len(n / 16, (w - 1) as nat);
    }
}

proof fn line_ends(a: Seq<char>, rest: Seq<char>)
    requires
        !a.contains('\n'),
    ensures
        line_end(a + seq!['\n'] + rest) == a.len(),
    decreases a.len(),
{
    let t = a + seq!['\n'] + rest;
    if a.len() > 0 {
        assert(a.contains(a[0]));
        let b = a.skip(1);
        assert forall|i: int| 0 <= i < b.len() implies b[i] != '\n' by {
            assert(a.contains(a[i + 1]));
        }
        assert(!b.contains('\n'));
        line_ends(b, rest);
        assert(t.skip(1) =~= b + seq!['\n'] + rest);
        assert(t[0] == a[0]);
    } else {
        assert(t[0] == '\n');
    }
}

proof fn spaces_are_trimmed(spaces: Seq<char>, t: Seq<char>)
    requires
        forall|i: int| 0 <= i < spaces.len() ==> is_space(#[trigger] spaces[i]),
        t.len() > 0,
        !is_space(t[0]),
    ensures
        trimmed(spaces + t) == t,
    decreases spaces.len(),
{
    if spaces.len() > 0 {
        let rest = spaces.skip(1);
        assert(is_space(spaces[0]));
        assert forall|i: int| 0 <= i < rest.len() implies is_space(#[trigger] rest[i]) by {
            assert(rest[i] == spaces[i + 1]);
        }
        spaces_are_trimmed(rest, t);
        assert((spaces + t).skip(1) =~= rest + t);
    } else {
        assert(spaces + t =~= t);
    }
}

proof fn word_ends(w: Seq<char>, t: Seq<char>)
    requires
        forall|i: int| 0 <= i < w.len() ==> !is_space(#[trigger] w[i]),
        t.len() > 0,
        is_space(t[0]),
    ensures
        word_end(w + t) == w.len(),
    decreases w.len(),
{
    if w.len() > 0 {
        let rest = w.skip(1);
        assert(!is_space(w[0]));
        assert forall|i: int| 0 <= i < rest.len() implies !is_space(#[trigger] rest[i]) by {
            assert(rest[i] == w[i + 1]);
        }
        word_ends(rest, t);
        assert((w + t).skip(1) =~= rest + t);
    } else {
        assert(w + t =~= t);
    }
}

/// A machine that reports its memory as so many kilobytes on the first line has 1024 times as many
/// bytes, whatever follows.
#[verifier::spinoff_prover]
#[verifier::rlimit(60)]
pub proof fn reported_memory_is_read(spaces: Seq<char>, kb: u64, rest: Seq<char>)
    requires
        spaces.len() > 0,
        forall|i: int| 0 <= i < spaces.len() ==> #[trigger] spaces[i] == ' ',
        kb * 1024 <= u64::MAX,
    ensures
        total_ram("MemTotal:"@ + spaces + decimal(kb as nat) + " kB"@ + seq!['\n'] + rest) == kb
            * 1024,
{
    reveal_strlit("MemTotal:");
    reveal_strlit(" kB");
    let tag = "MemTotal:"@;
    let digits = decimal(kb as nat);
    let line = tag + spaces + digits + " kB"@;
    let report = tag + spaces + digits + " kB"@ + seq!['\n'] + rest;
    assert(report =~= line + seq!['\n'] + rest);
    decimal_is_read(kb as nat);
    assert forall|i: int| 0 <= i < line.len() implies line[i] != '\n' by {
        let m = tag.len() + spaces.len();
        if i >= tag.len() && i < m {
            assert(line[i] == spaces[i - tag.len()]);
        } else if i >= m && i < m + digits.len() {
            assert(line[i] == digits[i - m]);
            assert(is_digit(digits[i - m]));
        }
    }
    assert(!line.contains('\n'));
    line_ends(line, rest);
    assert(report.take(line.len() as int) =~= line);
    assert(line.take(tag.len() as int) =~= tag);
    assert(line_with(report, tag) == Some(line));
    let none = Seq::<char>::empty();
    spaces_are_trimmed(none, line);
    assert(none + line =~= line);
    let after = spaces + digits + " kB"@;
    assert(line =~= tag + after);
    assert forall|i: int| 0 <= i < tag.len() implies !is_space(#[trigger] tag[i]) by {}
    assert(after[0] == spaces[0]);
    word_ends(tag, after);
    assert(line.skip(tag.len() as int) =~= after);
    let tail = digits + " kB"@;
    assert(after =~= spaces + tail);
    assert(tail[0] == digits[0]);
    assert(is_digit(digits[0]));
    assert forall|i: int| 0 <= i < spaces.len() implies is_space(#[trigger] spaces[i]) by {}
    spaces_are_trimmed(spaces, tail);
    assert forall|i: int| 0 <= i < digits.len() implies !is_space(#[trigger] digits[i]) by {
        assert(is_digit(digits[i]));
    }
    word_ends(digits, " kB"@);
    assert(tail.take(digits.len() as int) =~= digits);
    assert(second_word(line) == digits);
    assert(parsed(digits) == Some(kb));
}

/// A machine that does not report its memory, or not as a number, counts as one with four
/// gibibytes.
pub proof fn unreported_memory_is_small(report: Seq<char>)
    ensures
        line_with(report, "MemTotal:"@) is None ==> total_ram(report) == 4_294_967_296,
        line_with(report, "MemTotal:"@) matches Some(line) ==> (parsed(second_word(line)) is None
            ==> total_ram(report) == 4_294_967_296),
{
}

} // verus!
