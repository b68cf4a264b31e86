//! Stored values as bytes.
//!
//! A value is a schema version byte and then its fields in order, in the wire format of
//! the `postcard` crate: integers as varints (signed ones zigzagged first), options as a
//! `00` or `01` byte, texts and lists behind their length.

use vstd::prelude::*;
use vstd::utf8::{decode_utf8, encode_utf8, valid_utf8};

use crate::bytes::{copy_bytes, same_bytes};

verus! {

/// A number in groups of seven bits, least significant first; every byte but the last
/// has its top bit set.
pub open spec fn varint(n: nat) -> Seq<u8>
    decreases n,
{
    if n < 128 {
        seq![n as u8]
    } else {
        seq![(n % 128 + 128) as u8] + varint(n / 128)
    }
}

/// Reads a varint of at most `groups` bytes: its value and what follows it. A byte that
/// is the last of `groups` may not exceed `top`.
pub open spec fn varint_at(s: Seq<u8>, groups: nat, top: u8) -> Option<(nat, Seq<u8>)>
    decreases groups,
{
    if groups == 0 || s.len() == 0 {
        None
    } else if s[0] < 128 {
        if groups == 1 && s[0] > top {
            None
        } else {
            Some((s[0] as nat, s.skip(1)))
        }
    } else {
        match varint_at(s.skip(1), (groups - 1) as nat, top) {
            Some((n, rest)) => Some(((s[0] - 128) as nat + 128 * n, rest)),
            None => None,
        }
    }
}

/// How far the varints of `groups` bytes reach.
pub open spec fn varint_limit(groups: nat, top: u8) -> nat
    decreases groups,
{
    if groups <= 1 {
        (top + 1) as nat
    } else {
        128 * varint_limit((groups - 1) as nat, top)
    }
}

/// A varint within the limit is read back, and nothing that follows is consumed.
pub proof fn varint_round_trip(n: nat, groups: nat, top: u8, rest: Seq<u8>)
    requires
        groups >= 1,
        top < 128,
        n < varint_limit(groups, top),
    ensures
        varint_at(varint(n) + rest, groups, top) == Some((n, rest)),
    decreases groups,
{
    let s = varint(n) + rest;
    if n < 128 {
        assert(s.skip(1) =~= rest);
    } else {
        varint_round_trip(n / 128, (groups - 1) as nat, top, rest);
        assert(s.skip(1) =~= varint(n / 128) + rest);
    }
}

proof fn varint_limits()
    ensures
        varint_limit(5, 15) == 0x1_0000_0000,
        varint_limit(10, 1) == 0x1_0000_0000_0000_0000,
{
    reveal_with_fuel(varint_limit, 11);
}

proof fn varint_at_bound(s: Seq<u8>, groups: nat, top: u8)
    requires
        top < 128,
    ensures
        varint_at(s, groups, top) matches Some((n, rest)) ==> n < varint_limit(groups, top),
    decreases groups,
{
    if groups > 1 && s.len() > 0 && s[0] >= 128 {
        varint_at_bound(s.skip(1), (groups - 1) as nat, top);
    } else if groups > 1 {
        varint_limit_from_128(groups, top);
    } else if groups == 1 && s.len() > 0 && s[0] >= 128 {
        assert(varint_at(s.skip(1), 0, top) is None);
    }
}

/// A `u64` varint fits a `u64`.
pub proof fn varint_at_u64(s: Seq<u8>)
    ensures
        varint_at(s, 10, 1) matches Some((n, rest)) ==> n <= u64::MAX,
{
    varint_limits();
    varint_at_bound(s, 10, 1);
}

/// A `u32` varint fits a `u32`.
pub proof fn varint_at_u32(s: Seq<u8>)
    ensures
        varint_at(s, 5, 15) matches Some((n, rest)) ==> n <= u32::MAX,
{
    varint_limits();
    varint_at_bound(s, 5, 15);
}

proof fn varint_limit_from_128(groups: nat, top: u8)
    requires
        groups > 1,
    ensures
        varint_limit(groups, top) >= 128,
    decreases groups,
{
    reveal_with_fuel(varint_limit, 2);
    if groups > 2 {
        varint_limit_from_128((groups - 1) as nat, top);
    }
}

/// A varint takes at least one byte.
pub proof fn varint_at_shorter(s: Seq<u8>, groups: nat, top: u8)
    ensures
        varint_at(s, groups, top) matches Some((n, rest)) ==> rest.len() < s.len(),
    decreases groups,
{
    if groups > 0 && s.len() > 0 && s[0] >= 128 {
        varint_at_shorter(s.skip(1), (groups - 1) as nat, top);
    }
}

/// Signed numbers in the order 0, -1, 1, -2, 2, ...
pub open spec fn zigzag(v: int) -> nat {
    if v >= 0 {
        (2 * v) as nat
    } else {
        (-2 * v - 1) as nat
    }
}

pub open spec fn unzigzag(n: nat) -> int {
    if n % 2 == 0 {
        n as int / 2
    } else {
        -(n as int / 2) - 1
    }
}

/// `postcard::to_allocvec` on a `u32`: its varint.
#[verifier::external_body]
fn postcard_u32(v: u32) -> (r: Vec<u8>)
    ensures
        r@ == varint(v as nat),
{
    postcard::to_allocvec(&v).unwrap()
}

/// `postcard::to_allocvec` on a `u64`: its varint.
#[verifier::external_body]
fn postcard_u64(v: u64) -> (r: Vec<u8>)
    ensures
        r@ == varint(v as nat),
{
    postcard::to_allocvec(&v).unwrap()
}

/// `postcard::to_allocvec` on an `i32`: the varint of its zigzag form.
#[verifier::external_body]
fn postcard_i32(v: i32) -> (r: Vec<u8>)
    ensures
        r@ == varint(zigzag(v as int)),
{
    postcard::to_allocvec(&v).unwrap()
}

/// `postcard::to_allocvec` on an `i64`: the varint of its zigzag form.
#[verifier::external_body]
fn postcard_i64(v: i64) -> (r: Vec<u8>)
    ensures
        r@ == varint(zigzag(v as int)),
{
    postcard::to_allocvec(&v).unwrap()
}

/// `postcard::take_from_bytes` for a `u32`: a varint of at most five bytes whose fifth
/// byte is at most 15, and the bytes after it; nothing where there is none.
#[verifier::external_body]
fn postcard_take_u32<'a>(s: &'a [u8]) -> (r: Option<(u32, &'a [u8])>)
    ensures
        match varint_at(s@, 5, 15) {
            Some((n, rest)) => r is Some && (r->0).0 == n && (r->0).1@ == rest,
            None => r is None,
        },
{
    postcard::take_from_bytes::<u32>(s).ok()
}

/// `postcard::take_from_bytes` for a `u64`: a varint of at most ten bytes whose tenth
/// byte is at most 1, and the bytes after it; nothing where there is none.
#[verifier::external_body]
fn postcard_take_u64<'a>(s: &'a [u8]) -> (r: Option<(u64, &'a [u8])>)
    ensures
        match varint_at(s@, 10, 1) {
            Some((n, rest)) => r is Some && (r->0).0 == n && (r->0).1@ == rest,
            None => r is None,
        },
{
    postcard::take_from_bytes::<u64>(s).ok()
}

/// `postcard::take_from_bytes` for an `i32`: the number whose zigzag form is a `u32`
/// varint, and the bytes after it; nothing where there is none.
#[verifier::external_body]
fn postcard_take_i32<'a>(s: &'a [u8]) -> (r: Option<(i32, &'a [u8])>)
    ensures
        match varint_at(s@, 5, 15) {
            Some((n, rest)) => r is Some && (r->0).0 == unzigzag(n) && (r->0).1@ == rest,
            None => r is None,
        },
{
    postcard::take_from_bytes::<i32>(s).ok()
}

/// `postcard::take_from_bytes` for an `i64`: the number whose zigzag form is a `u64`
/// varint, and the bytes after it; nothing where there is none.
#[verifier::external_body]
fn postcard_take_i64<'a>(s: &'a [u8]) -> (r: Option<(i64, &'a [u8])>)
    ensures
        match varint_at(s@, 10, 1) {
            Some((n, rest)) => r is Some && (r->0).0 == unzigzag(n) && (r->0).1@ == rest,
            None => r is None,
        },
{
    postcard::take_from_bytes::<i64>(s).ok()
}

/// `String::from_utf8`: the text that the bytes encode, or nothing where they are not
/// valid UTF-8.
#[verifier::external_body]
fn string_from_utf8(s: Vec<u8>) -> (r: Option<String>)
    ensures
        r is Some <==> valid_utf8(s@),
        r is Some ==> r->0@ == decode_utf8(s@),
{
    String::from_utf8(s).ok()
}

/// The text that a byte string encodes, if it is valid UTF-8.
pub open spec fn text_of(s: Seq<u8>) -> Option<Seq<char>> {
    if valid_utf8(s) {
        Some(decode_utf8(s))
    } else {
        None
    }
}

/// Reads bytes as UTF-8 text.
pub fn text_from_bytes(s: &[u8]) -> (r: Option<String>)
    ensures
        match text_of(s@) {
            Some(t) => r is Some && r->0@ == t,
            None => r is None,
        },
{
    string_from_utf8(copy_bytes(s))
}

/// The bytes of a text read back as the text.
pub proof fn text_round_trip(t: Seq<char>)
    ensures
        text_of(encode_utf8(t)) == Some(t),
{
    broadcast use {vstd::utf8::encode_utf8_valid_utf8, vstd::utf8::encode_utf8_decode_utf8};

    assert(valid_utf8(encode_utf8(t)));
    assert(decode_utf8(encode_utf8(t)) =~= t);
}

/// Whether two texts are the same.
pub fn same_text(a: &str, b: &str) -> (r: bool)
    ensures
        r == (a@ == b@),
{
    proof {
        text_round_trip(a@);
        text_round_trip(b@);
    }
    same_bytes(a.as_bytes(), b.as_bytes())
}

/// A type of stored field: how a value of it is written and read.
pub trait Field: DeepView + Sized {
    /// The bytes of a value.
    spec fn encoded(v: <Self as DeepView>::V) -> Seq<u8>;

    /// The value at the start of some bytes and what follows it, if there is one.
    spec fn decoded(s: Seq<u8>) -> Option<(<Self as DeepView>::V, Seq<u8>)>;

    /// No text or list in the value is longer than a machine can hold.
    spec fn fits(v: <Self as DeepView>::V) -> bool;

    /// A value is read back from its bytes, and nothing that follows is consumed.
    proof fn round_trip(v: <Self as DeepView>::V, rest: Seq<u8>)
        requires
            Self::fits(v),
        ensures
            Self::decoded(Self::encoded(v) + rest) == Some((v, rest)),
    ;

    /// A value takes at least one byte, and what is read from bytes that a machine holds
    /// is no longer than a machine can hold.
    proof fn read_fits(s: Seq<u8>)
        ensures
            Self::decoded(s) matches Some((v, rest)) ==> rest.len() < s.len() && (s.len()
                <= usize::MAX ==> Self::fits(v)),
    ;

    /// Appends the bytes of a value.
    fn encode(&self, out: &mut Vec<u8>)
        ensures
            final(out)@ == old(out)@ + Self::encoded(self.deep_view()),
    ;

    /// Reads a value from the start of some bytes.
    fn decode<'a>(s: &'a [u8]) -> (r: Option<(Self, &'a [u8])>)
        ensures
            match Self::decoded(s@) {
                Some((v, rest)) => r is Some && (r->0).0.deep_view() == v && (r->0).1@ == rest,
                None => r is None,
            },
    ;

    /// A copy of a value.
    fn duplicate(&self) -> (r: Self)
        ensures
            r.deep_view() == self.deep_view(),
    ;
}

impl Field for u8 {
    open spec fn encoded(v: u8) -> Seq<u8> {
        seq![v]
    }

    open spec fn decoded(s: Seq<u8>) -> Option<(u8, Seq<u8>)> {
        if s.len() == 0 {
            None
        } else {
            Some((s[0], s.skip(1)))
        }
    }

    open spec fn fits(v: u8) -> bool {
        true
    }

    proof fn round_trip(v: u8, rest: Seq<u8>) {
        assert((seq![v] + rest).skip(1) =~= rest);
    }

    proof fn read_fits(s: Seq<u8>) {
    }

    fn encode(&self, out: &mut Vec<u8>) {
        out.push(*self);
        assert(out@ =~= old(out)@ + seq![*self]);
    }

    fn decode<'a>(s: &'a [u8]) -> (r: Option<(u8, &'a [u8])>) {
        if s.len() == 0 {
            None
        } else {
            Some((s[0], vstd::slice::slice_subrange(s, 1, s.len())))
        }
    }

    fn duplicate(&self) -> (r: u8) {
        *self
    }
}

impl Field for bool {
    open spec fn encoded(v: bool) -> Seq<u8> {
        seq![if v { 1u8 } else { 0u8 }]
    }

    open spec fn decoded(s: Seq<u8>) -> Option<(bool, Seq<u8>)> {
        if s.len() == 0 || s[0] > 1 {
            None
        } else {
            Some((s[0] == 1, s.skip(1)))
        }
    }

    open spec fn fits(v: bool) -> bool {
        true
    }

    proof fn round_trip(v: bool, rest: Seq<u8>) {
        assert((Self::encoded(v) + rest).skip(1) =~= rest);
    }

    proof fn read_fits(s: Seq<u8>) {
    }

    fn encode(&self, out: &mut Vec<u8>) {
        out.push(if *self { 1 } else { 0 });
        assert(out@ =~= old(out)@ + Self::encoded(*self));
    }

    fn decode<'a>(s: &'a [u8]) -> (r: Option<(bool, &'a [u8])>) {
        if s.len() == 0 || s[0] > 1 {
            None
        } else {
            Some((s[0] == 1, vstd::slice::slice_subrange(s, 1, s.len())))
        }
    }

    fn duplicate(&self) -> (r: bool) {
        *self
    }
}

impl Field for u32 {
    open spec fn encoded(v: u32) -> Seq<u8> {
        varint(v as nat)
    }

    open spec fn decoded(s: Seq<u8>) -> Option<(u32, Seq<u8>)> {
        match varint_at(s, 5, 15) {
            Some((n, rest)) => Some((n as u32, rest)),
            None => None,
        }
    }

    open spec fn fits(v: u32) -> bool {
        true
    }

    proof fn round_trip(v: u32, rest: Seq<u8>) {
        varint_limits();
        varint_round_trip(v as nat, 5, 15, rest);
    }

    proof fn read_fits(s: Seq<u8>) {
        varint_at_shorter(s, 5, 15);
    }

    fn encode(&self, out: &mut Vec<u8>) {
        let mut b: Vec<u8> = postcard_u32(*self);
        out.append(&mut b);
        assert(out@ == old(out)@ + Self::encoded(*self));
    }

    fn decode<'a>(s: &'a [u8]) -> (r: Option<(u32, &'a [u8])>) {
        let r: Option<(u32, &'a [u8])> = postcard_take_u32(s);
        proof {
            if let Some((n, rest)) = varint_at(s@, 5, 15) {
                assert((r->0).0.deep_view() == n as u32);
                assert(Self::decoded(s@) == Some(((r->0).0, rest)));
            }
        }
        r
    }

    fn duplicate(&self) -> (r: u32) {
        *self
    }
}

impl Field for u64 {
    open spec fn encoded(v: u64) -> Seq<u8> {
        varint(v as nat)
    }

    open spec fn decoded(s: Seq<u8>) -> Option<(u64, Seq<u8>)> {
        match varint_at(s, 10, 1) {
            Some((n, rest)) => Some((n as u64, rest)),
            None => None,
        }
    }

    open spec fn fits(v: u64) -> bool {
        true
    }

    proof fn round_trip(v: u64, rest: Seq<u8>) {
        varint_limits();
        varint_round_trip(v as nat, 10, 1, rest);
    }

    proof fn read_fits(s: Seq<u8>) {
        varint_at_shorter(s, 10, 1);
    }

    fn encode(&self, out: &mut Vec<u8>) {
        let mut b: Vec<u8> = postcard_u64(*self);
        out.append(&mut b);
        assert(out@ == old(out)@ + Self::encoded(*self));
    }

    fn decode<'a>(s: &'a [u8]) -> (r: Option<(u64, &'a [u8])>) {
        let r: Option<(u64, &'a [u8])> = postcard_take_u64(s);
        proof {
            if let Some((n, rest)) = varint_at(s@, 10, 1) {
                assert((r->0).0.deep_view() == n as u64);
                assert(Self::decoded(s@) == Some(((r->0).0, rest)));
            }
        }
        r
    }

    fn duplicate(&self) -> (r: u64) {
        *self
    }
}

impl Field for i32 {
    open spec fn encoded(v: i32) -> Seq<u8> {
        varint(zigzag(v as int))
    }

    open spec fn decoded(s: Seq<u8>) -> Option<(i32, Seq<u8>)> {
        match varint_at(s, 5, 15) {
            Some((n, rest)) => Some((unzigzag(n) as i32, rest)),
            None => None,
        }
    }

    open spec fn fits(v: i32) -> bool {
        true
    }

    proof fn round_trip(v: i32, rest: Seq<u8>) {
        varint_limits();
        varint_round_trip(zigzag(v as int), 5, 15, rest);
    }

    proof fn read_fits(s: Seq<u8>) {
        varint_at_shorter(s, 5, 15);
    }

    fn encode(&self, out: &mut Vec<u8>) {
        let mut b: Vec<u8> = postcard_i32(*self);
        out.append(&mut b);
        assert(out@ == old(out)@ + Self::encoded(*self));
    }

    fn decode<'a>(s: &'a [u8]) -> (r: Option<(i32, &'a [u8])>) {
        let r: Option<(i32, &'a [u8])> = postcard_take_i32(s);
        proof {
            if let Some((n, rest)) = varint_at(s@, 5, 15) {
                assert((r->0).0.deep_view() == unzigzag(n) as i32);
                assert(Self::decoded(s@) == Some(((r->0).0, rest)));
            }
        }
        r
    }

    fn duplicate(&self) -> (r: i32) {
        *self
    }
}

impl Field for i64 {
    open spec fn encoded(v: i64) -> Seq<u8> {
        varint(zigzag(v as int))
    }

    open spec fn decoded(s: Seq<u8>) -> Option<(i64, Seq<u8>)> {
        match varint_at(s, 10, 1) {
            Some((n, rest)) => Some((unzigzag(n) as i64, rest)),
            None => None,
        }
    }

    open spec fn fits(v: i64) -> bool {
        true
    }

    proof fn round_trip(v: i64, rest: Seq<u8>) {
        varint_limits();
        varint_round_trip(zigzag(v as int), 10, 1, rest);
    }

    proof fn read_fits(s: Seq<u8>) {
        varint_at_shorter(s, 10, 1);
    }

    fn encode(&self, out: &mut Vec<u8>) {
        let mut b: Vec<u8> = postcard_i64(*self);
        out.append(&mut b);
        assert(out@ == old(out)@ + Self::encoded(*self));
    }

    fn decode<'a>(s: &'a [u8]) -> (r: Option<(i64, &'a [u8])>) {
        let r: Option<(i64, &'a [u8])> = postcard_take_i64(s);
        proof {
            if let Some((n, rest)) = varint_at(s@, 10, 1) {
                assert((r->0).0.deep_view() == unzigzag(n) as i64);
                assert(Self::decoded(s@) == Some(((r->0).0, rest)));
            }
        }
        r
    }

    fn duplicate(&self) -> (r: i64) {
        *self
    }
}

impl Field for String {
    open spec fn encoded(v: Seq<char>) -> Seq<u8> {
        varint(encode_utf8(v).len()) + encode_utf8(v)
    }

    open spec fn decoded(s: Seq<u8>) -> Option<(Seq<char>, Seq<u8>)> {
        match varint_at(s, 10, 1) {
            Some((n, rest)) => if n > rest.len() {
                None
            } else {
                match text_of(rest.take(n as int)) {
                    Some(t) => Some((t, rest.skip(n as int))),
                    None => None,
                }
            },
            None => None,
        }
    }

    open spec fn fits(v: Seq<char>) -> bool {
        encode_utf8(v).len() <= usize::MAX
    }

    proof fn round_trip(v: Seq<char>, rest: Seq<u8>) {
        let b = encode_utf8(v);
        varint_limits();
        varint_round_trip(b.len(), 10, 1, b + rest);
        assert(Self::encoded(v) + rest =~= varint(b.len()) + (b + rest));
        assert((b + rest).take(b.len() as int) =~= b);
        assert((b + rest).skip(b.len() as int) =~= rest);
        text_round_trip(v);
    }

    proof fn read_fits(s: Seq<u8>) {
        varint_at_shorter(s, 10, 1);
        if let Some((n, rest)) = varint_at(s, 10, 1) {
            if n <= rest.len() && text_of(rest.take(n as int)) is Some {
                broadcast use vstd::utf8::decode_utf8_encode_utf8;

                let b = rest.take(n as int);
                assert(encode_utf8(decode_utf8(b)) =~= b);
            }
        }
    }

    fn encode(&self, out: &mut Vec<u8>) {
        let b: &[u8] = self.as_str().as_bytes();
        (b.len() as u64).encode(out);
        let ghost mid = out@;
        out.extend_from_slice(b);
        assert(out@ =~= mid + b@);
        assert(out@ =~= old(out)@ + Self::encoded(self@));
    }

    fn decode<'a>(s: &'a [u8]) -> (r: Option<(String, &'a [u8])>) {
        match u64::decode(s) {
            None => None,
            Some((n, rest)) => {
                proof {
                    varint_at_u64(s@);
                }
                if n > rest.len() as u64 {
                    return None;
                }
                let n: usize = n as usize;
                match text_from_bytes(vstd::slice::slice_subrange(rest, 0, n)) {
                    Some(t) => Some((t, vstd::slice::slice_subrange(rest, n, rest.len()))),
                    None => None,
                }
            },
        }
    }

    fn duplicate(&self) -> (r: String) {
        self.clone()
    }
}

impl<T: Field> Field for Option<T> {
    open spec fn encoded(v: Option<T::V>) -> Seq<u8> {
        match v {
            None => seq![0u8],
            Some(x) => seq![1u8] + T::encoded(x),
        }
    }

    open spec fn decoded(s: Seq<u8>) -> Option<(Option<T::V>, Seq<u8>)> {
        if s.len() == 0 || s[0] > 1 {
            None
        } else if s[0] == 0 {
            Some((None, s.skip(1)))
        } else {
            match T::decoded(s.skip(1)) {
                Some((x, rest)) => Some((Some(x), rest)),
                None => None,
            }
        }
    }

    open spec fn fits(v: Option<T::V>) -> bool {
        v matches Some(x) ==> T::fits(x)
    }

    proof fn round_trip(v: Option<T::V>, rest: Seq<u8>) {
        match v {
            None => {
                assert((seq![0u8] + rest).skip(1) =~= rest);
            },
            Some(x) => {
                T::round_trip(x, rest);
                assert((seq![1u8] + T::encoded(x) + rest).skip(1) =~= T::encoded(x) + rest);
            },
        }
    }

    proof fn read_fits(s: Seq<u8>) {
        if s.len() > 0 && s[0] == 1 {
            T::read_fits(s.skip(1));
        }
    }

    fn encode(&self, out: &mut Vec<u8>) {
        match self {
            None => {
                out.push(0);
                assert(out@ =~= old(out)@ + seq![0u8]);
            },
            Some(x) => {
                out.push(1);
                x.encode(out);
                assert(out@ =~= old(out)@ + (seq![1u8] + T::encoded(x.deep_view())));
            },
        }
    }

    fn decode<'a>(s: &'a [u8]) -> (r: Option<(Option<T>, &'a [u8])>) {
        if s.len() == 0 || s[0] > 1 {
            return None;
        }
        let rest: &'a [u8] = vstd::slice::slice_subrange(s, 1, s.len());
        if s[0] == 0 {
            return Some((None, rest));
        }
        match T::decode(rest) {
            Some((x, after)) => Some((Some(x), after)),
            None => None,
        }
    }

    fn duplicate(&self) -> (r: Option<T>) {
        match self {
            None => None,
            Some(x) => Some(x.duplicate()),
        }
    }
}

/// The items of a list one after another.
pub open spec fn items<T: Field>(v: Seq<T::V>) -> Seq<u8>
    decreases v.len(),
{
    if v.len() == 0 {
        Seq::empty()
    } else {
        T::encoded(v[0]) + items::<T>(v.skip(1))
    }
}

/// Reads `n` items.
pub open spec fn items_at<T: Field>(s: Seq<u8>, n: nat) -> Option<(Seq<T::V>, Seq<u8>)>
    decreases n,
{
    if n == 0 {
        Some((Seq::empty(), s))
    } else {
        match T::decoded(s) {
            Some((x, rest)) => match items_at::<T>(rest, (n - 1) as nat) {
                Some((xs, after)) => Some((seq![x] + xs, after)),
                None => None,
            },
            None => None,
        }
    }
}

proof fn items_round_trip<T: Field>(v: Seq<T::V>, rest: Seq<u8>)
    requires
        forall|i: int| 0 <= i < v.len() ==> T::fits(#[trigger] v[i]),
    ensures
        items_at::<T>(items::<T>(v) + rest, v.len()) == Some((v, rest)),
    decreases v.len(),
{
    if v.len() == 0 {
        assert(items::<T>(v) + rest =~= rest);
        assert(v =~= Seq::empty());
    } else {
        let tail = items::<T>(v.skip(1)) + rest;
        assert(items::<T>(v) + rest =~= T::encoded(v[0]) + tail);
        T::round_trip(v[0], tail);
        items_round_trip::<T>(v.skip(1), rest);
        assert(v =~= seq![v[0]] + v.skip(1));
    }
}

proof fn items_read_fit<T: Field>(s: Seq<u8>, n: nat)
    ensures
        items_at::<T>(s, n) matches Some((xs, rest)) ==> {
            &&& xs.len() == n
            &&& n + rest.len() <= s.len()
            &&& s.len() <= usize::MAX ==> forall|i: int|
                0 <= i < xs.len() ==> T::fits(#[trigger] xs[i])
        },
    decreases n,
{
    if n > 0 {
        T::read_fits(s);
        if let Some((x, rest)) = T::decoded(s) {
            items_read_fit::<T>(rest, (n - 1) as nat);
            if let Some((xs, after)) = items_at::<T>(rest, (n - 1) as nat) {
                assert forall|i: int| s.len() <= usize::MAX && 0 <= i < xs.len() + 1 implies T::fits(
                    #[trigger] (seq![x] + xs)[i],
                ) by {
                    if i > 0 {
                        assert((seq![x] + xs)[i] == xs[i - 1]);
                    }
                }
            }
        }
    }
}

impl<T: Field> Field for Vec<T> {
    open spec fn encoded(v: Seq<T::V>) -> Seq<u8> {
        varint(v.len()) + items::<T>(v)
    }

    open spec fn decoded(s: Seq<u8>) -> Option<(Seq<T::V>, Seq<u8>)> {
        match varint_at(s, 10, 1) {
            Some((n, rest)) => items_at::<T>(rest, n),
            None => None,
        }
    }

    open spec fn fits(v: Seq<T::V>) -> bool {
        &&& v.len() <= usize::MAX
        &&& forall|i: int| 0 <= i < v.len() ==> T::fits(#[trigger] v[i])
    }

    proof fn round_trip(v: Seq<T::V>, rest: Seq<u8>) {
        varint_limits();
        varint_round_trip(v.len(), 10, 1, items::<T>(v) + rest);
        assert(Self::encoded(v) + rest =~= varint(v.len()) + (items::<T>(v) + rest));
        items_round_trip::<T>(v, rest);
    }

    proof fn read_fits(s: Seq<u8>) {
        varint_at_shorter(s, 10, 1);
        if let Some((n, rest)) = varint_at(s, 10, 1) {
            items_read_fit::<T>(rest, n);
        }
    }

    fn encode(&self, out: &mut Vec<u8>) {
        (self.len() as u64).encode(out);
        let ghost all = self.deep_view();
        let ghost goal = out@ + items::<T>(all);
        assert(goal =~= old(out)@ + Self::encoded(all));
        let mut i: usize = 0;
        assert(all.skip(0) =~= all);
        while i < self.len()
            invariant
                i <= self.len(),
                all == self.deep_view(),
                out@ + items::<T>(all.skip(i as int)) == goal,
            decreases self.len() - i,
        {
            let ghost before = out@;
            self[i].encode(out);
            assert(all.skip(i as int).skip(1) =~= all.skip(i + 1));
            assert(all.skip(i as int)[0] == self@[i as int].deep_view());
            assert(out@ + items::<T>(all.skip(i + 1)) =~= before + items::<T>(all.skip(i as int)));
            i = i + 1;
        }
        assert(out@ + items::<T>(all.skip(i as int)) =~= out@);
    }

    fn decode<'a>(s: &'a [u8]) -> (r: Option<(Vec<T>, &'a [u8])>) {
        match u64::decode(s) {
            None => None,
            Some((n, start)) => {
                proof {
                    varint_at_u64(s@);
                }
                let mut rest: &'a [u8] = start;
                let mut left: u64 = n;
                let mut out: Vec<T> = Vec::new();
                proof {
                    if let Some((xs, after)) = items_at::<T>(start@, n as nat) {
                        assert(out.deep_view() + xs =~= xs);
                    }
                }
                while left > 0
                    invariant
                        Self::decoded(s@) == items_at::<T>(start@, n as nat),
                        match items_at::<T>(rest@, left as nat) {
                            Some((xs, after)) => items_at::<T>(start@, n as nat) == Some(
                                (out.deep_view() + xs, after),
                            ),
                            None => items_at::<T>(start@, n as nat) is None,
                        },
                    decreases left,
                {
                    match T::decode(rest) {
                        None => {
                            return None;
                        },
                        Some((x, after)) => {
                            let ghost before = out.deep_view();
                            let ghost xv = x.deep_view();
                            let ghost r0 = rest@;
                            out.push(x);
                            assert(out.deep_view() =~= before.push(xv));
                            proof {
                                if let Some((xs, end)) = items_at::<T>(after@, (left - 1) as nat) {
                                    assert(out.deep_view() + xs =~= before + (seq![xv] + xs));
                                }
                            }
                            rest = after;
                            left = left - 1;
                        },
                    }
                }
                assert(out.deep_view() + Seq::<T::V>::empty() =~= out.deep_view());
                Some((out, rest))
            },
        }
    }

    fn duplicate(&self) -> (r: Vec<T>) {
        let mut out: Vec<T> = Vec::new();
        let mut i: usize = 0;
        while i < self.len()
            invariant
                i <= self.len(),
                out.len() == i,
                forall|j: int| 0 <= j < i ==> (#[trigger] out@[j]).deep_view() == self@[j].deep_view(),
            decreases self.len() - i,
        {
            out.push(self[i].duplicate());
            i = i + 1;
        }
        assert(out.deep_view() =~= self.deep_view());
        out
    }
}

impl<A: Field, B: Field> Field for (A, B) {
    open spec fn encoded(v: (A::V, B::V)) -> Seq<u8> {
        A::encoded(v.0) + B::encoded(v.1)
    }

    open spec fn decoded(s: Seq<u8>) -> Option<((A::V, B::V), Seq<u8>)> {
        match A::decoded(s) {
            Some((a, rest)) => match B::decoded(rest) {
                Some((b, after)) => Some(((a, b), after)),
                None => None,
            },
            None => None,
        }
    }

    open spec fn fits(v: (A::V, B::V)) -> bool {
        A::fits(v.0) && B::fits(v.1)
    }

    proof fn round_trip(v: (A::V, B::V), rest: Seq<u8>) {
        B::round_trip(v.1, rest);
        A::round_trip(v.0, B::encoded(v.1) + rest);
        assert(Self::encoded(v) + rest =~= A::encoded(v.0) + (B::encoded(v.1) + rest));
    }

    proof fn read_fits(s: Seq<u8>) {
        A::read_fits(s);
        if let Some((a, rest)) = A::decoded(s) {
            B::read_fits(rest);
        }
    }

    fn encode(&self, out: &mut Vec<u8>) {
        self.0.encode(out);
        self.1.encode(out);
        assert(out@ =~= old(out)@ + Self::encoded(self.deep_view()));
    }

    fn decode<'a>(s: &'a [u8]) -> (r: Option<((A, B), &'a [u8])>) {
        match A::decode(s) {
            None => None,
            Some((a, rest)) => match B::decode(rest) {
                None => None,
                Some((b, after)) => Some(((a, b), after)),
            },
        }
    }

    fn duplicate(&self) -> (r: (A, B)) {
        (self.0.duplicate(), self.1.duplicate())
    }
}

/// A stored value: the schema version, then the fields.
pub open spec fn framed<F: Field>(version: u8, v: F::V) -> Seq<u8> {
    seq![version] + F::encoded(v)
}

/// Reads a stored value; bytes after its fields are ignored.
pub open spec fn unframed<F: Field>(version: u8, s: Seq<u8>) -> Option<F::V> {
    if s.len() == 0 || s[0] != version {
        None
    } else {
        match F::decoded(s.skip(1)) {
            Some((v, rest)) => Some(v),
            None => None,
        }
    }
}

/// A stored value is read back as it was written.
pub proof fn framed_round_trip<F: Field>(version: u8, v: F::V)
    requires
        F::fits(v),
    ensures
        unframed::<F>(version, framed::<F>(version, v)) == Some(v),
{
    F::round_trip(v, Seq::empty());
    assert(framed::<F>(version, v).skip(1) =~= F::encoded(v) + Seq::<u8>::empty());
}

/// A value that was read from stored bytes is no longer than a machine can hold.
pub proof fn unframed_fits<F: Field>(version: u8, s: Seq<u8>)
    requires
        s.len() <= usize::MAX,
    ensures
        unframed::<F>(version, s) matches Some(v) ==> F::fits(v),
{
    if s.len() > 0 {
        F::read_fits(s.skip(1));
    }
}

/// Writes a stored value.
pub fn frame<F: Field>(version: u8, fields: &F) -> (r: Vec<u8>)
    ensures
        r@ == framed::<F>(version, fields.deep_view()),
{
    let mut out: Vec<u8> = Vec::new();
    out.push(version);
    fields.encode(&mut out);
    assert(out@ =~= framed::<F>(version, fields.deep_view()));
    out
}

/// Reads a stored value.
pub fn unframe<F: Field>(version: u8, s: &[u8]) -> (r: Option<F>)
    ensures
        match unframed::<F>(version, s@) {
            Some(v) => r is Some && r->0.deep_view() == v,
            None => r is None,
        },
{
    if s.len() == 0 || s[0] != version {
        return None;
    }
    match F::decode(vstd::slice::slice_subrange(s, 1, s.len())) {
        Some((v, _)) => Some(v),
        None => None,
    }
}

} // verus!
