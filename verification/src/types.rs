//! Identifiers: UUIDs, DIDs, handles, scopes, content identifiers, sequence numbers.

use vstd::prelude::*;
use vstd::string::*;
use vstd::utf8::encode_utf8;

use crate::bytes::{copy_bytes, same_bytes};
use crate::codec::{varint_at, Field};
use crate::encoding::{be, be_len, be_limit, be_round_trip, be_value};
use crate::text::{hex, push_hex};

verus! {

/// A universally unique identifier.
#[derive(Debug, Clone, Copy, PartialEq, Eq, Structural)]
pub struct Uuid {
    pub bits: u128,
}

impl DeepView for Uuid {
    type V = Uuid;

    open spec fn deep_view(&self) -> Uuid {
        *self
    }
}

impl Uuid {
    /// The version and variant bits of a random identifier.
    pub open spec fn is_random(self) -> bool {
        self.bits & 0xF000_C000_0000_0000_0000u128 == 0x4000_8000_0000_0000_0000u128
    }

    /// The identifier in groups of 8, 4, 4, 4 and 12 hexadecimal digits.
    pub open spec fn text(self) -> Seq<char> {
        hex(self.bits as nat / 0x1_0000_0000_0000_0000_0000_0000, 8) + "-"@ + hex(
            self.bits as nat / 0x1_0000_0000_0000_0000_0000,
            4,
        ) + "-"@ + hex(self.bits as nat / 0x1_0000_0000_0000_0000, 4) + "-"@ + hex(
            self.bits as nat / 0x1_0000_0000_0000,
            4,
        ) + "-"@ + hex(self.bits as nat, 12)
    }

    /// The identifier whose bits are all zero.
    pub fn nil() -> (r: Uuid)
        ensures
            r.bits == 0,
    {
        Uuid { bits: 0 }
    }

    pub fn to_text(&self) -> (r: String)
        ensures
            r@ == self.text(),
    {
        let mut out: String = String::new();
        push_hex(&mut out, self.bits / 0x1_0000_0000_0000_0000_0000_0000, 8);
        assert(out@ =~= hex(self.bits as nat / 0x1_0000_0000_0000_0000_0000_0000, 8));
        out.append("-");
        push_hex(&mut out, self.bits / 0x1_0000_0000_0000_0000_0000, 4);
        out.append("-");
        push_hex(&mut out, self.bits / 0x1_0000_0000_0000_0000, 4);
        out.append("-");
        push_hex(&mut out, self.bits / 0x1_0000_0000_0000, 4);
        out.append("-");
        push_hex(&mut out, self.bits, 12);
        out
    }
}

/// The sixteen bytes of an identifier, most significant first.
pub open spec fn uuid_bytes(id: Uuid) -> Seq<u8> {
    be(id.bits as nat, 16)
}

proof fn be_limit_16()
    ensures
        be_limit(16) == 0x1_0000_0000_0000_0000_0000_0000_0000_0000,
{
    reveal_with_fuel(be_limit, 17);
}

/// An identifier is read back from its bytes.
pub proof fn uuid_bytes_round_trip(id: Uuid)
    ensures
        uuid_bytes(id).len() == 16,
        be_value(uuid_bytes(id)) == id.bits,
{
    be_limit_16();
    be_len(id.bits as nat, 16);
    be_round_trip(id.bits as nat, 16);
}

/// Appends the sixteen bytes of an identifier.
pub fn push_uuid(out: &mut Vec<u8>, id: Uuid)
    ensures
        final(out)@ == old(out)@ + uuid_bytes(id),
{
    push_wide(out, id.bits, 16);
}

fn push_wide(out: &mut Vec<u8>, v: u128, w: usize)
    ensures
        final(out)@ == old(out)@ + be(v as nat, w as nat),
    decreases w,
{
    if w > 0 {
        push_wide(out, v / 256, w - 1);
        out.push((v % 256) as u8);
    }
}

/// Reads sixteen bytes as an identifier.
pub fn read_uuid(s: &[u8]) -> (r: Uuid)
    requires
        s@.len() == 16,
    ensures
        r.bits == be_value(s@),
{
    let mut v: u128 = 0;
    let mut i: usize = 0;
    while i < 16
        invariant
            i <= 16,
            s@.len() == 16,
            v == be_value(s@.take(i as int)),
        decreases 16 - i,
    {
        assert(s@.take(i + 1).drop_last() =~= s@.take(i as int));
        proof {
            crate::encoding::be_value_bound(s@.take(i + 1));
            reveal_with_fuel(be_limit, 17);
        }
        v = v * 256 + s[i] as u128;
        i = i + 1;
    }
    assert(s@.take(16) =~= s@);
    Uuid { bits: v }
}

/// A stored identifier: a byte string of sixteen bytes.
impl Field for Uuid {
    open spec fn encoded(v: Uuid) -> Seq<u8> {
        seq![16u8] + uuid_bytes(v)
    }

    open spec fn decoded(s: Seq<u8>) -> Option<(Uuid, Seq<u8>)> {
        match varint_at(s, 10, 1) {
            Some((n, rest)) => if n != 16 || rest.len() < 16 {
                None
            } else {
                Some((Uuid { bits: be_value(rest.take(16)) as u128 }, rest.skip(16)))
            },
            None => None,
        }
    }

    open spec fn fits(v: Uuid) -> bool {
        true
    }

    proof fn round_trip(v: Uuid, rest: Seq<u8>) {
        let b = uuid_bytes(v);
        uuid_bytes_round_trip(v);
        let s = Self::encoded(v) + rest;
        assert(s.skip(1) =~= b + rest);
        assert((b + rest).take(16) =~= b);
        assert((b + rest).skip(16) =~= rest);
    }

    proof fn read_fits(s: Seq<u8>) {
        crate::codec::varint_at_shorter(s, 10, 1);
    }

    fn encode(&self, out: &mut Vec<u8>) {
        out.push(16);
        push_uuid(out, *self);
        assert(out@ =~= old(out)@ + Self::encoded(*self));
    }

    fn decode<'a>(s: &'a [u8]) -> (r: Option<(Uuid, &'a [u8])>) {
        match u64::decode(s) {
            None => None,
            Some((n, rest)) => {
                proof {
                    crate::codec::varint_at_u64(s@);
                }
                if n != 16 || rest.len() < 16 {
                    return None;
                }
                Some(
                    (
                        read_uuid(vstd::slice::slice_subrange(rest, 0, 16)),
                        vstd::slice::slice_subrange(rest, 16, rest.len()),
                    ),
                )
            },
        }
    }

    fn duplicate(&self) -> (r: Uuid) {
        *self
    }
}

pub open spec fn is_lower(b: u8) -> bool {
    0x61 <= b <= 0x7A
}

pub open spec fn is_letter(b: u8) -> bool {
    is_lower(b) || 0x41 <= b <= 0x5A
}

pub open spec fn is_alphanumeric(b: u8) -> bool {
    is_letter(b) || 0x30 <= b <= 0x39
}

fn lower(b: u8) -> (r: bool)
    ensures
        r == is_lower(b),
{
    0x61 <= b && b <= 0x7A
}

fn letter(b: u8) -> (r: bool)
    ensures
        r == is_letter(b),
{
    lower(b) || (0x41 <= b && b <= 0x5A)
}

fn alphanumeric(b: u8) -> (r: bool)
    ensures
        r == is_alphanumeric(b),
{
    letter(b) || (0x30 <= b && b <= 0x39)
}

/// A byte of a DID's method-specific part: a letter, a digit, or one of `.`, `_`, `:`,
/// `%`, `-`.
pub open spec fn is_did_byte(b: u8) -> bool {
    is_alphanumeric(b) || b == 0x2E || b == 0x5F || b == 0x3A || b == 0x25 || b == 0x2D
}

/// `did:`, a method of lower-case letters, `:`, and a method-specific part that does not
/// end in `:` or `%`; 2048 bytes at most.
pub open spec fn is_did(b: Seq<u8>) -> bool {
    &&& b.len() <= 2048
    &&& b.take(4) == seq![0x64u8, 0x69u8, 0x64u8, 0x3Au8]
    &&& exists|m: int|
        {
            &&& 4 < m < b.len() - 1
            &&& #[trigger] b[m] == 0x3A
            &&& forall|i: int| 4 <= i < m ==> is_lower(#[trigger] b[i])
            &&& forall|i: int| m < i < b.len() ==> is_did_byte(#[trigger] b[i])
        }
    &&& b.last() != 0x3A
    &&& b.last() != 0x25
}

fn check_did(b: &[u8]) -> (r: bool)
    ensures
        r == is_did(b@),
{
    let n: usize = b.len();
    if n > 2048 || n < 4 {
        return false;
    }
    if b[0] != 0x64 || b[1] != 0x69 || b[2] != 0x64 || b[3] != 0x3A {
        proof {
            let t = b@.take(4);
            assert(t[0] == b@[0] && t[1] == b@[1] && t[2] == b@[2] && t[3] == b@[3]);
        }
        return false;
    }
    assert(b@.take(4) =~= seq![0x64u8, 0x69u8, 0x64u8, 0x3Au8]);
    let mut m: usize = 4;
    while m < n && lower(b[m])
        invariant
            4 <= m <= n,
            n == b@.len(),
            forall|i: int| 4 <= i < m ==> is_lower(#[trigger] b@[i]),
        decreases n - m,
    {
        m = m + 1;
    }
    // The method ends at the first byte that is not a lower-case letter.
    proof {
        assert forall|k: int|
            4 < k < b@.len() - 1 && #[trigger] b@[k] == 0x3A && (forall|i: int|
                4 <= i < k ==> is_lower(#[trigger] b@[i])) implies k == m by {
            if k < m {
                assert(is_lower(b@[k]));
            }
            if m < k {
                assert(is_lower(b@[m as int]));
            }
        }
    }
    if m == 4 || m >= n - 1 || b[m] != 0x3A {
        return false;
    }
    let mut i: usize = m + 1;
    while i < n
        invariant
            m < i <= n,
            n == b@.len(),
            forall|k: int| m < k < i ==> is_did_byte(#[trigger] b@[k]),
        decreases n - i,
    {
        let c: u8 = b[i];
        if !(alphanumeric(c) || c == 0x2E || c == 0x5F || c == 0x3A || c == 0x25 || c == 0x2D) {
            assert(!is_did_byte(b@[i as int]));
            return false;
        }
        i = i + 1;
    }
    b[n - 1] != 0x3A && b[n - 1] != 0x25
}

/// The identifier of an account.
#[derive(Debug, PartialEq, Eq)]
pub struct Did {
    text: String,
}

impl DeepView for Did {
    type V = Seq<char>;

    closed spec fn deep_view(&self) -> Seq<char> {
        self.text@
    }
}

impl View for Did {
    type V = Seq<char>;

    open spec fn view(&self) -> Seq<char> {
        self.deep_view()
    }
}

impl Clone for Did {
    fn clone(&self) -> (r: Did)
        ensures
            r@ == self@,
    {
        Did { text: self.text.clone() }
    }
}

impl Did {
    /// A DID from a text that is one.
    pub fn new(text: String) -> (r: Option<Did>)
        ensures
            r is Some <==> is_did(encode_utf8(text@)),
            r is Some ==> r->0@ == text@,
    {
        if check_did(text.as_str().as_bytes()) {
            Some(Did { text })
        } else {
            None
        }
    }

    /// A DID from a text that is taken for one.
    pub fn from(text: String) -> (r: Did)
        ensures
            r@ == text@,
    {
        Did { text }
    }

    pub fn as_str(&self) -> (r: &str)
        ensures
            r@ == self@,
    {
        self.text.as_str()
    }
}

impl Field for Did {
    open spec fn encoded(v: Seq<char>) -> Seq<u8> {
        String::encoded(v)
    }

    open spec fn decoded(s: Seq<u8>) -> Option<(Seq<char>, Seq<u8>)> {
        String::decoded(s)
    }

    open spec fn fits(v: Seq<char>) -> bool {
        String::fits(v)
    }

    proof fn round_trip(v: Seq<char>, rest: Seq<u8>) {
        String::round_trip(v, rest);
    }

    proof fn read_fits(s: Seq<u8>) {
        String::read_fits(s);
    }

    fn encode(&self, out: &mut Vec<u8>) {
        self.text.encode(out);
    }

    fn decode<'a>(s: &'a [u8]) -> (r: Option<(Did, &'a [u8])>) {
        match String::decode(s) {
            None => None,
            Some((text, rest)) => Some((Did { text }, rest)),
        }
    }

    fn duplicate(&self) -> (r: Did) {
        Did { text: self.text.clone() }
    }
}

/// A domain name of at least two labels. A label has 1 to 63 letters, digits and
/// hyphens, and neither starts nor ends in a hyphen; the last one starts with a letter.
pub open spec fn is_handle(b: Seq<u8>) -> bool {
    &&& 0 < b.len() <= 253
    &&& forall|i: int|
        0 <= i < b.len() ==> is_alphanumeric(#[trigger] b[i]) || b[i] == 0x2D || b[i] == 0x2E
    &&& is_alphanumeric(b[0]) && is_alphanumeric(b.last())
    &&& forall|i: int|
        0 <= i < b.len() && #[trigger] b[i] == 0x2E ==> 0 < i < b.len() - 1 && is_alphanumeric(
            b[i - 1],
        ) && is_alphanumeric(b[i + 1])
    &&& exists|d: int| is_last_dot(b, d) && is_letter(b[d + 1])
    &&& forall|i: int| 0 <= i && i + 64 <= b.len() ==> #[trigger] has_dot(b, i, i + 64)
}

pub open spec fn is_last_dot(b: Seq<u8>, d: int) -> bool {
    &&& 0 <= d < b.len()
    &&& b[d] == 0x2E
    &&& forall|i: int| d < i < b.len() ==> #[trigger] b[i] != 0x2E
}

pub open spec fn has_dot(b: Seq<u8>, from: int, to: int) -> bool {
    exists|i: int| from <= i < to && #[trigger] b[i] == 0x2E
}

fn check_handle(b: &[u8]) -> (r: bool)
    ensures
        r == is_handle(b@),
{
    let n: usize = b.len();
    if n == 0 || n > 253 {
        return false;
    }
    if !alphanumeric(b[0]) || !alphanumeric(b[n - 1]) {
        return false;
    }
    // The start of the label that is being read, and the last dot before it.
    let mut start: usize = 0;
    let mut i: usize = 0;
    while i < n
        invariant
            start <= i <= n,
            n == b@.len(),
            is_alphanumeric(b@[0]),
            is_alphanumeric(b@[n - 1]),
            forall|k: int|
                0 <= k < i ==> is_alphanumeric(#[trigger] b@[k]) || b@[k] == 0x2D || b@[k] == 0x2E,
            forall|k: int|
                0 <= k < i && #[trigger] b@[k] == 0x2E ==> 0 < k < n - 1 && is_alphanumeric(
                    b@[k - 1],
                ) && is_alphanumeric(b@[k + 1]),
            forall|k: int| start <= k < i ==> #[trigger] b@[k] != 0x2E,
            start > 0 ==> b@[start - 1] == 0x2E,
            i - start <= 63,
            forall|k: int| 0 <= k && k + 64 <= i ==> #[trigger] has_dot(b@, k, k + 64),
        decreases n - i,
    {
        let c: u8 = b[i];
        if c == 0x2E {
            if i == 0 || i >= n - 1 || !alphanumeric(b[i - 1]) || !alphanumeric(b[i + 1]) {
                return false;
            }
            assert forall|k: int| 0 <= k && k + 64 <= i + 1 implies #[trigger] has_dot(
                b@,
                k,
                k + 64,
            ) by {
                assert(b@[i as int] == 0x2E);
            }
            start = i + 1;
        } else {
            if !(alphanumeric(c) || c == 0x2D) {
                return false;
            }
            if i - start == 63 {
                assert(!has_dot(b@, start as int, start + 64));
                return false;
            }
            assert forall|k: int| 0 <= k && k + 64 <= i + 1 implies #[trigger] has_dot(
                b@,
                k,
                k + 64,
            ) by {
                if k + 64 == i + 1 {
                    assert(start > 0 && k <= start - 1 < k + 64);
                    assert(b@[start - 1] == 0x2E);
                }
            }
        }
        i = i + 1;
    }
    proof {
        assert forall|d: int| is_last_dot(b@, d) implies d == start - 1 by {
            if start > 0 && d < start - 1 {
                assert(b@[start - 1] != 0x2E);
            }
            if d >= start {
                assert(b@[d] != 0x2E);
            }
        }
        if start > 0 {
            assert(is_last_dot(b@, start - 1));
        }
    }
    start > 0 && letter(b[start])
}

/// The name of an account.
#[derive(Debug, PartialEq, Eq)]
pub struct Handle {
    text: String,
}

impl DeepView for Handle {
    type V = Seq<char>;

    closed spec fn deep_view(&self) -> Seq<char> {
        self.text@
    }
}

impl View for Handle {
    type V = Seq<char>;

    open spec fn view(&self) -> Seq<char> {
        self.deep_view()
    }
}

impl Clone for Handle {
    fn clone(&self) -> (r: Handle)
        ensures
            r@ == self@,
    {
        Handle { text: self.text.clone() }
    }
}

impl Handle {
    /// A handle from a text that is one.
    pub fn new(text: String) -> (r: Option<Handle>)
        ensures
            r is Some <==> is_handle(encode_utf8(text@)),
            r is Some ==> r->0@ == text@,
    {
        if check_handle(text.as_str().as_bytes()) {
            Some(Handle { text })
        } else {
            None
        }
    }

    /// A handle from a text that is taken for one.
    pub fn from(text: String) -> (r: Handle)
        ensures
            r@ == text@,
    {
        Handle { text }
    }

    pub fn as_str(&self) -> (r: &str)
        ensures
            r@ == self@,
    {
        self.text.as_str()
    }
}

impl Field for Handle {
    open spec fn encoded(v: Seq<char>) -> Seq<u8> {
        String::encoded(v)
    }

    open spec fn decoded(s: Seq<u8>) -> Option<(Seq<char>, Seq<u8>)> {
        String::decoded(s)
    }

    open spec fn fits(v: Seq<char>) -> bool {
        String::fits(v)
    }

    proof fn round_trip(v: Seq<char>, rest: Seq<u8>) {
        String::round_trip(v, rest);
    }

    proof fn read_fits(s: Seq<u8>) {
        String::read_fits(s);
    }

    fn encode(&self, out: &mut Vec<u8>) {
        self.text.encode(out);
    }

    fn decode<'a>(s: &'a [u8]) -> (r: Option<(Handle, &'a [u8])>) {
        match String::decode(s) {
            None => None,
            Some((text, rest)) => Some((Handle { text }, rest)),
        }
    }

    fn duplicate(&self) -> (r: Handle) {
        Handle { text: self.text.clone() }
    }
}

/// A byte of a scope token: printable, and neither a space, `"` nor `\`.
pub open spec fn is_scope_byte(b: u8) -> bool {
    0x21 <= b <= 0x7E && b != 0x22 && b != 0x5C
}

/// Scope tokens with single spaces between them, or nothing.
pub open spec fn is_scope(b: Seq<u8>) -> bool {
    forall|i: int|
        0 <= i < b.len() ==> is_scope_byte(#[trigger] b[i]) || (b[i] == 0x20 && 0 < i < b.len() - 1
            && b[i - 1] != 0x20)
}

fn check_scope(b: &[u8]) -> (r: bool)
    ensures
        r == is_scope(b@),
{
    let mut i: usize = 0;
    while i < b.len()
        invariant
            i <= b.len(),
            forall|k: int|
                0 <= k < i ==> is_scope_byte(#[trigger] b@[k]) || (b@[k] == 0x20 && 0 < k < b@.len()
                    - 1 && b@[k - 1] != 0x20),
        decreases b.len() - i,
    {
        let c: u8 = b[i];
        let token: bool = 0x21 <= c && c <= 0x7E && c != 0x22 && c != 0x5C;
        if !token && !(c == 0x20 && 0 < i && i < b.len() - 1 && b[i - 1] != 0x20) {
            assert(!is_scope_byte(b@[i as int]));
            return false;
        }
        i = i + 1;
    }
    true
}

/// What a delegation lets its controller do.
#[derive(Debug, PartialEq, Eq)]
pub struct DbScope {
    text: String,
}

impl DeepView for DbScope {
    type V = Seq<char>;

    closed spec fn deep_view(&self) -> Seq<char> {
        self.text@
    }
}

impl View for DbScope {
    type V = Seq<char>;

    open spec fn view(&self) -> Seq<char> {
        self.deep_view()
    }
}

/// A stored scope, or the empty one where it is not well formed.
pub open spec fn scope_or_empty(text: Seq<char>) -> Seq<char> {
    if is_scope(encode_utf8(text)) {
        text
    } else {
        Seq::empty()
    }
}

impl Clone for DbScope {
    fn clone(&self) -> (r: DbScope)
        ensures
            r@ == self@,
    {
        proof {
            use_type_invariant(self);
        }
        DbScope { text: self.text.clone() }
    }
}

impl DbScope {
    #[verifier::type_invariant]
    spec fn well_formed(self) -> bool {
        is_scope(encode_utf8(self.text@))
    }

    /// A scope from a text that is one.
    pub fn new(text: &str) -> (r: Option<DbScope>)
        ensures
            r is Some <==> is_scope(encode_utf8(text@)),
            r is Some ==> r->0@ == text@,
    {
        if check_scope(text.as_bytes()) {
            Some(DbScope { text: text.to_owned() })
        } else {
            None
        }
    }

    /// The scope that allows nothing.
    pub fn empty() -> (r: DbScope)
        ensures
            r@ == Seq::<char>::empty(),
    {
        let text: String = String::new();
        assert(text@ =~= Seq::<char>::empty());
        assert(encode_utf8(text@) =~= Seq::<u8>::empty());
        DbScope { text }
    }

    pub fn new_or_empty(text: &str) -> (r: DbScope)
        ensures
            r@ == scope_or_empty(text@),
    {
        match DbScope::new(text) {
            Some(s) => s,
            None => DbScope::empty(),
        }
    }

    pub fn as_str(&self) -> (r: &str)
        ensures
            r@ == self@,
            is_scope(encode_utf8(r@)),
    {
        proof {
            use_type_invariant(self);
        }
        self.text.as_str()
    }
}

/// The bytes of a content identifier: version 1, raw or DAG-CBOR content, a SHA-256
/// digest.
pub open spec fn is_cid(b: Seq<u8>) -> bool {
    b.len() == 36 && b[0] == 0x01 && (b[1] == 0x55 || b[1] == 0x71) && b[2] == 0x12 && b[3] == 0x20
}

/// A content identifier.
#[derive(Debug, PartialEq, Eq)]
pub struct CidLink {
    bytes: Vec<u8>,
}

impl DeepView for CidLink {
    type V = Seq<u8>;

    closed spec fn deep_view(&self) -> Seq<u8> {
        self.bytes@
    }
}

impl View for CidLink {
    type V = Seq<u8>;

    open spec fn view(&self) -> Seq<u8> {
        self.deep_view()
    }
}

impl Clone for CidLink {
    fn clone(&self) -> (r: CidLink)
        ensures
            r@ == self@,
    {
        self.duplicate()
    }
}

impl CidLink {
    #[verifier::type_invariant]
    spec fn well_formed(self) -> bool {
        is_cid(self.bytes@)
    }

    /// A content identifier from its bytes.
    pub fn from_bytes(b: &[u8]) -> (r: Option<CidLink>)
        ensures
            r is Some <==> is_cid(b@),
            r is Some ==> r->0@ == b@,
    {
        if b.len() == 36 && b[0] == 0x01 && (b[1] == 0x55 || b[1] == 0x71) && b[2] == 0x12 && b[3]
            == 0x20 {
            Some(CidLink { bytes: copy_bytes(b) })
        } else {
            None
        }
    }

    pub fn to_bytes(&self) -> (r: Vec<u8>)
        ensures
            r@ == self@,
            is_cid(r@),
    {
        proof {
            use_type_invariant(self);
        }
        copy_bytes(self.bytes.as_slice())
    }

    pub fn same(&self, other: &CidLink) -> (r: bool)
        ensures
            r == (self@ == other@),
    {
        same_bytes(self.bytes.as_slice(), other.bytes.as_slice())
    }
}

/// A stored content identifier: a byte string that is one.
impl Field for CidLink {
    open spec fn encoded(v: Seq<u8>) -> Seq<u8> {
        <Vec<u8>>::encoded(v)
    }

    open spec fn decoded(s: Seq<u8>) -> Option<(Seq<u8>, Seq<u8>)> {
        match <Vec<u8>>::decoded(s) {
            Some((b, rest)) => if is_cid(b) {
                Some((b, rest))
            } else {
                None
            },
            None => None,
        }
    }

    open spec fn fits(v: Seq<u8>) -> bool {
        is_cid(v)
    }

    proof fn round_trip(v: Seq<u8>, rest: Seq<u8>) {
        <Vec<u8>>::round_trip(v, rest);
    }

    proof fn read_fits(s: Seq<u8>) {
        <Vec<u8>>::read_fits(s);
    }

    fn encode(&self, out: &mut Vec<u8>) {
        assert(self.bytes.deep_view() =~= self.bytes@);
        self.bytes.encode(out);
    }

    fn decode<'a>(s: &'a [u8]) -> (r: Option<(CidLink, &'a [u8])>) {
        match <Vec<u8>>::decode(s) {
            None => None,
            Some((b, rest)) => {
                assert(b.deep_view() =~= b@);
                match CidLink::from_bytes(b.as_slice()) {
                    Some(c) => Some((c, rest)),
                    None => None,
                }
            },
        }
    }

    fn duplicate(&self) -> (r: CidLink) {
        proof {
            use_type_invariant(self);
        }
        CidLink { bytes: copy_bytes(self.bytes.as_slice()) }
    }
}

/// The position of an event in the event log.
#[derive(Debug, Clone, Copy, PartialEq, Eq, Structural)]
pub struct SequenceNumber {
    raw: i64,
}

impl View for SequenceNumber {
    type V = i64;

    closed spec fn view(&self) -> i64 {
        self.raw
    }
}

impl DeepView for SequenceNumber {
    type V = i64;

    open spec fn deep_view(&self) -> i64 {
        self.view()
    }
}

impl SequenceNumber {
    pub fn from_raw(raw: i64) -> (r: SequenceNumber)
        ensures
            r@ == raw,
    {
        SequenceNumber { raw }
    }

    pub fn as_i64(&self) -> (r: i64)
        ensures
            r == self@,
    {
        self.raw
    }

    /// The number as an unsigned one, unless it is negative.
    pub fn as_u64(&self) -> (r: Option<u64>)
        ensures
            r == (if self@ >= 0 { Some(self@ as u64) } else { None }),
    {
        if self.raw >= 0 {
            Some(self.raw as u64)
        } else {
            None
        }
    }
}

impl Field for SequenceNumber {
    open spec fn encoded(v: i64) -> Seq<u8> {
        i64::encoded(v)
    }

    open spec fn decoded(s: Seq<u8>) -> Option<(i64, Seq<u8>)> {
        i64::decoded(s)
    }

    open spec fn fits(v: i64) -> bool {
        true
    }

    proof fn round_trip(v: i64, rest: Seq<u8>) {
        i64::round_trip(v, rest);
    }

    proof fn read_fits(s: Seq<u8>) {
        i64::read_fits(s);
    }

    fn encode(&self, out: &mut Vec<u8>) {
        self.raw.encode(out);
    }

    fn decode<'a>(s: &'a [u8]) -> (r: Option<(SequenceNumber, &'a [u8])>) {
        match i64::decode(s) {
            None => None,
            Some((raw, rest)) => Some((SequenceNumber { raw }, rest)),
        }
    }

    fn duplicate(&self) -> (r: SequenceNumber) {
        *self
    }
}

/// An optional text by its characters.
pub open spec fn optional_text(t: Option<&str>) -> Option<Seq<char>> {
    match t {
        Some(s) => Some(s@),
        None => None,
    }
}

/// An optional DID by its characters.
pub open spec fn optional_ref(d: Option<&Did>) -> Option<Seq<char>> {
    match d {
        Some(d) => Some(d@),
        None => None,
    }
}

pub(crate) fn owned_text(t: Option<&str>) -> (r: Option<String>)
    ensures
        r.deep_view() == optional_text(t),
{
    match t {
        Some(s) => Some(s.to_owned()),
        None => None,
    }
}

pub(crate) fn owned_did(d: Option<&Did>) -> (r: Option<String>)
    ensures
        r.deep_view() == optional_ref(d),
{
    match d {
        Some(d) => Some(d.as_str().to_owned()),
        None => None,
    }
}

/// The address of a record.
pub open spec fn at_uri_text(did: Seq<char>, collection: Seq<char>, rkey: Seq<char>) -> Seq<char> {
    "at://"@ + did + "/"@ + collection + "/"@ + rkey
}

/// The address of a record from its parts.
pub fn at_uri(did: &str, collection: &str, rkey: &str) -> (r: String)
    ensures
        r@ == at_uri_text(did@, collection@, rkey@),
{
    let mut out: String = "at://".to_owned();
    out.append(did);
    out.append("/");
    out.append(collection);
    out.append("/");
    out.append(rkey);
    out
}

} // verus!
