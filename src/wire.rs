//! The wire codec: how values become bytes and back.
//!
//! Integers are big-endian and fixed-width. Strings and sequences carry a
//! 64-bit big-endian length prefix: the byte count of a string, the element
//! count of a sequence. An optional is one discriminant byte (0 absent,
//! 1 present) followed by the payload when present. Records encode their
//! fields in declared order; tagged unions encode a 64-bit ordinal and then
//! the variant's payload.
//!
//! Each type states its encoding as `wire` and its decoding as `parse` over
//! its model (`DeepView`), and `read` and `write` are proved against them.

use crate::num::{
    be_bytes, be_value, lemma_be_bytes_len, lemma_be_round_trip, lemma_be_value_bound,
    lemma_pow256_eight, lemma_pow256_monotone, lemma_pow256_sixteen, pow256, push_be, read_be,
};
use vstd::prelude::*;
use vstd::utf8::*;

verus! {

/// Why bytes could not be decoded into a value.
#[derive(Clone, Copy, Debug, PartialEq, Eq, Structural)]
pub enum WireReadError {
    /// The input ended before the value did.
    Truncated,
    /// The payload of a string is not valid UTF-8.
    InvalidUtf8,
    /// The discriminant byte of an optional is neither 0 nor 1.
    InvalidDiscriminant(u8),
    /// The ordinal of a tagged union names no variant.
    InvalidOrdinal(u64),
}

impl WireReadError {
    /// Whether this is a malformed encoding rather than input that ended early.
    pub fn is_invalid_encoding(&self) -> (r: bool)
        ensures
            r == !(*self is Truncated),
    {
        !matches!(self, WireReadError::Truncated)
    }
}

/// Outcome of decoding the front of a byte sequence: the model of the value
/// and the number of bytes it took, or why it failed.
pub type Parsed<V> = Result<(V, nat), WireReadError>;

/// Width of length prefixes and of union ordinals, in bytes.
pub const PREFIX_WIDTH: usize = 8;

/// Values that can be written to the wire.
pub trait WireWrite: DeepView + Sized {
    /// Whether a value with model `v` can be encoded: every length in it
    /// fits the 64-bit prefix.
    spec fn valid(v: Self::V) -> bool;

    /// The bytes that encode a value with model `v`.
    spec fn wire(v: Self::V) -> Seq<u8>;

    /// Appends the encoding of `self` to `out`; every value that can be
    /// written is valid.
    fn write(&self, out: &mut Vec<u8>)
        ensures
            final(out)@ == old(out)@ + Self::wire(self.deep_view()),
            Self::valid(self.deep_view()),
    ;
}

/// Values that can be read from the wire.
pub trait WireRead: WireWrite {
    /// Decodes the front of `s`.
    spec fn parse(s: Seq<u8>) -> Parsed<Self::V>;

    /// Decoding the encoding of a valid value gives the value back and
    /// consumes exactly its encoding, whatever follows it.
    proof fn lemma_round_trip(v: Self::V, rest: Seq<u8>)
        requires
            Self::valid(v),
        ensures
            Self::parse(Self::wire(v) + rest) == Parsed::Ok((v, Self::wire(v).len())),
    ;

    /// Decodes one value from `input`, starting at `pos`; on success also
    /// returns the position just after it.
    fn read(input: &[u8], pos: usize) -> (r: Result<(Self, usize), WireReadError>)
        requires
            pos <= input@.len(),
        ensures
            read_agrees(r, Self::parse(input@.skip(pos as int)), pos),
            r matches Ok((_, q)) ==> q <= input@.len(),
    ;
}

/// `r` is what decoding at `pos` must return when the model outcome is `p`.
pub open spec fn read_agrees<T: DeepView>(
    r: Result<(T, usize), WireReadError>,
    p: Parsed<T::V>,
    pos: usize,
) -> bool {
    match p {
        Ok((v, n)) => r matches Ok((x, q)) && x.deep_view() == v && q == pos + n,
        Err(e) => r == Err::<(T, usize), WireReadError>(e),
    }
}

/// Decodes a fixed-width integer of `width` bytes from the front of `s`.
pub open spec fn parse_be(s: Seq<u8>, width: nat) -> Parsed<nat> {
    if s.len() < width {
        Err(WireReadError::Truncated)
    } else {
        Ok((be_value(s.take(width as int)), width))
    }
}

proof fn lemma_parse_be_round_trip(v: nat, width: nat, rest: Seq<u8>)
    requires
        v < pow256(width),
    ensures
        parse_be(be_bytes(v, width) + rest, width) == Parsed::Ok((v, width)),
        be_bytes(v, width).len() == width,
{
    lemma_be_bytes_len(v, width);
    assert((be_bytes(v, width) + rest).take(width as int) =~= be_bytes(v, width));
    lemma_be_round_trip(v, width);
}

/// Reads `width` bytes at `pos` as a big-endian number, or reports truncation.
fn read_fixed(input: &[u8], pos: usize, width: usize) -> (r: Result<(u64, usize), WireReadError>)
    requires
        pos <= input@.len(),
        width <= 8,
    ensures
        match parse_be(input@.skip(pos as int), width as nat) {
            Ok((v, n)) => r matches Ok((x, q)) && x == v && q == pos + n && v < pow256(width as nat),
            Err(e) => r == Err::<(u64, usize), WireReadError>(e),
        },
{
    if input.len() - pos < width {
        Err(WireReadError::Truncated)
    } else {
        let wide = read_be(input, pos, width);
        proof {
            lemma_be_value_bound(input@.subrange(pos as int, pos + width));
            lemma_pow256_eight();
            lemma_pow256_monotone(width as nat, 8);
        }
        let v = wide as u64;
        proof {
            assert(input@.skip(pos as int).take(width as int) =~= input@.subrange(
                pos as int,
                pos + width,
            ));
            lemma_be_value_bound(input@.subrange(pos as int, pos + width));
        }
        Ok((v, pos + width))
    }
}

impl WireWrite for u8 {
    open spec fn valid(v: u8) -> bool {
        true
    }

    open spec fn wire(v: u8) -> Seq<u8> {
        be_bytes(v as nat, 1)
    }

    fn write(&self, out: &mut Vec<u8>) {
        push_be(out, *self as u128, 1);
    }
}

impl WireRead for u8 {
    open spec fn parse(s: Seq<u8>) -> Parsed<u8> {
        match parse_be(s, 1) {
            Ok((v, n)) => Ok((v as u8, n)),
            Err(e) => Err(e),
        }
    }

    proof fn lemma_round_trip(v: u8, rest: Seq<u8>) {
        reveal_with_fuel(pow256, 2);
        lemma_parse_be_round_trip(v as nat, 1, rest);
    }

    fn read(input: &[u8], pos: usize) -> (r: Result<(u8, usize), WireReadError>) {
        proof {
            reveal_with_fuel(pow256, 2);
        }
        match read_fixed(input, pos, 1) {
            Ok((v, p)) => Ok((v as u8, p)),
            Err(e) => Err(e),
        }
    }
}

impl WireWrite for u16 {
    open spec fn valid(v: u16) -> bool {
        true
    }

    open spec fn wire(v: u16) -> Seq<u8> {
        be_bytes(v as nat, 2)
    }

    fn write(&self, out: &mut Vec<u8>) {
        push_be(out, *self as u128, 2);
    }
}

impl WireRead for u16 {
    open spec fn parse(s: Seq<u8>) -> Parsed<u16> {
        match parse_be(s, 2) {
            Ok((v, n)) => Ok((v as u16, n)),
            Err(e) => Err(e),
        }
    }

    proof fn lemma_round_trip(v: u16, rest: Seq<u8>) {
        reveal_with_fuel(pow256, 3);
        lemma_parse_be_round_trip(v as nat, 2, rest);
    }

    fn read(input: &[u8], pos: usize) -> (r: Result<(u16, usize), WireReadError>) {
        proof {
            reveal_with_fuel(pow256, 3);
        }
        match read_fixed(input, pos, 2) {
            Ok((v, p)) => Ok((v as u16, p)),
            Err(e) => Err(e),
        }
    }
}

impl WireWrite for u32 {
    open spec fn valid(v: u32) -> bool {
        true
    }

    open spec fn wire(v: u32) -> Seq<u8> {
        be_bytes(v as nat, 4)
    }

    fn write(&self, out: &mut Vec<u8>) {
        push_be(out, *self as u128, 4);
    }
}

impl WireRead for u32 {
    open spec fn parse(s: Seq<u8>) -> Parsed<u32> {
        match parse_be(s, 4) {
            Ok((v, n)) => Ok((v as u32, n)),
            Err(e) => Err(e),
        }
    }

    proof fn lemma_round_trip(v: u32, rest: Seq<u8>) {
        reveal_with_fuel(pow256, 5);
        lemma_parse_be_round_trip(v as nat, 4, rest);
    }

    fn read(input: &[u8], pos: usize) -> (r: Result<(u32, usize), WireReadError>) {
        proof {
            reveal_with_fuel(pow256, 5);
        }
        match read_fixed(input, pos, 4) {
            Ok((v, p)) => Ok((v as u32, p)),
            Err(e) => Err(e),
        }
    }
}

impl WireWrite for u64 {
    open spec fn valid(v: u64) -> bool {
        true
    }

    open spec fn wire(v: u64) -> Seq<u8> {
        be_bytes(v as nat, 8)
    }

    fn write(&self, out: &mut Vec<u8>) {
        push_be(out, *self as u128, 8);
    }
}

impl WireRead for u64 {
    open spec fn parse(s: Seq<u8>) -> Parsed<u64> {
        match parse_be(s, 8) {
            Ok((v, n)) => Ok((v as u64, n)),
            Err(e) => Err(e),
        }
    }

    proof fn lemma_round_trip(v: u64, rest: Seq<u8>) {
        lemma_pow256_eight();
        lemma_parse_be_round_trip(v as nat, 8, rest);
    }

    fn read(input: &[u8], pos: usize) -> (r: Result<(u64, usize), WireReadError>) {
        read_fixed(input, pos, 8)
    }
}

impl WireWrite for i8 {
    open spec fn valid(v: i8) -> bool {
        true
    }

    /// Two's complement, big-endian.
    open spec fn wire(v: i8) -> Seq<u8> {
        be_bytes((v as u8) as nat, 1)
    }

    fn write(&self, out: &mut Vec<u8>) {
        push_be(out, (*self as u8) as u128, 1);
    }
}

impl WireRead for i8 {
    open spec fn parse(s: Seq<u8>) -> Parsed<i8> {
        match parse_be(s, 1) {
            Ok((v, n)) => Ok(((v as u8) as i8, n)),
            Err(e) => Err(e),
        }
    }

    proof fn lemma_round_trip(v: i8, rest: Seq<u8>) {
        reveal_with_fuel(pow256, 2);
        lemma_parse_be_round_trip((v as u8) as nat, 1, rest);
        assert(((v as u8) as i8) == v) by (bit_vector);
    }

    fn read(input: &[u8], pos: usize) -> (r: Result<(i8, usize), WireReadError>) {
        proof {
            reveal_with_fuel(pow256, 2);
        }
        match read_fixed(input, pos, 1) {
            Ok((v, p)) => Ok(((v as u8) as i8, p)),
            Err(e) => Err(e),
        }
    }
}

impl WireWrite for i16 {
    open spec fn valid(v: i16) -> bool {
        true
    }

    /// Two's complement, big-endian.
    open spec fn wire(v: i16) -> Seq<u8> {
        be_bytes((v as u16) as nat, 2)
    }

    fn write(&self, out: &mut Vec<u8>) {
        push_be(out, (*self as u16) as u128, 2);
    }
}

impl WireRead for i16 {
    open spec fn parse(s: Seq<u8>) -> Parsed<i16> {
        match parse_be(s, 2) {
            Ok((v, n)) => Ok(((v as u16) as i16, n)),
            Err(e) => Err(e),
        }
    }

    proof fn lemma_round_trip(v: i16, rest: Seq<u8>) {
        reveal_with_fuel(pow256, 3);
        lemma_parse_be_round_trip((v as u16) as nat, 2, rest);
        assert(((v as u16) as i16) == v) by (bit_vector);
    }

    fn read(input: &[u8], pos: usize) -> (r: Result<(i16, usize), WireReadError>) {
        proof {
            reveal_with_fuel(pow256, 3);
        }
        match read_fixed(input, pos, 2) {
            Ok((v, p)) => Ok(((v as u16) as i16, p)),
            Err(e) => Err(e),
        }
    }
}

impl WireWrite for i32 {
    open spec fn valid(v: i32) -> bool {
        true
    }

    /// Two's complement, big-endian.
    open spec fn wire(v: i32) -> Seq<u8> {
        be_bytes((v as u32) as nat, 4)
    }

    fn write(&self, out: &mut Vec<u8>) {
        push_be(out, (*self as u32) as u128, 4);
    }
}

impl WireRead for i32 {
    open spec fn parse(s: Seq<u8>) -> Parsed<i32> {
        match parse_be(s, 4) {
            Ok((v, n)) => Ok(((v as u32) as i32, n)),
            Err(e) => Err(e),
        }
    }

    proof fn lemma_round_trip(v: i32, rest: Seq<u8>) {
        reveal_with_fuel(pow256, 5);
        lemma_parse_be_round_trip((v as u32) as nat, 4, rest);
        assert(((v as u32) as i32) == v) by (bit_vector);
    }

    fn read(input: &[u8], pos: usize) -> (r: Result<(i32, usize), WireReadError>) {
        proof {
            reveal_with_fuel(pow256, 5);
        }
        match read_fixed(input, pos, 4) {
            Ok((v, p)) => Ok(((v as u32) as i32, p)),
            Err(e) => Err(e),
        }
    }
}

impl WireWrite for i64 {
    open spec fn valid(v: i64) -> bool {
        true
    }

    /// Two's complement, big-endian.
    open spec fn wire(v: i64) -> Seq<u8> {
        be_bytes((v as u64) as nat, 8)
    }

    fn write(&self, out: &mut Vec<u8>) {
        push_be(out, (*self as u64) as u128, 8);
    }
}

impl WireRead for i64 {
    open spec fn parse(s: Seq<u8>) -> Parsed<i64> {
        match parse_be(s, 8) {
            Ok((v, n)) => Ok(((v as u64) as i64, n)),
            Err(e) => Err(e),
        }
    }

    proof fn lemma_round_trip(v: i64, rest: Seq<u8>) {
        lemma_pow256_eight();
        lemma_parse_be_round_trip((v as u64) as nat, 8, rest);
        assert(((v as u64) as i64) == v) by (bit_vector);
    }

    fn read(input: &[u8], pos: usize) -> (r: Result<(i64, usize), WireReadError>) {
        match read_fixed(input, pos, 8) {
            Ok((v, p)) => Ok(((v as u64) as i64, p)),
            Err(e) => Err(e),
        }
    }
}

/// Reads 16 bytes at `pos` as a big-endian number, or reports truncation.
fn read_wide(input: &[u8], pos: usize) -> (r: Result<(u128, usize), WireReadError>)
    requires
        pos <= input@.len(),
    ensures
        match parse_be(input@.skip(pos as int), 16) {
            Ok((v, n)) => r matches Ok((x, q)) && x == v && q == pos + n && v < pow256(16),
            Err(e) => r == Err::<(u128, usize), WireReadError>(e),
        },
{
    if input.len() - pos < 16 {
        Err(WireReadError::Truncated)
    } else {
        let v = read_be(input, pos, 16);
        proof {
            assert(input@.skip(pos as int).take(16) =~= input@.subrange(pos as int, pos + 16));
            lemma_be_value_bound(input@.subrange(pos as int, pos + 16));
        }
        Ok((v, pos + 16))
    }
}

impl WireWrite for u128 {
    open spec fn valid(v: u128) -> bool {
        true
    }

    open spec fn wire(v: u128) -> Seq<u8> {
        be_bytes(v as nat, 16)
    }

    fn write(&self, out: &mut Vec<u8>) {
        push_be(out, *self, 16);
    }
}

impl WireRead for u128 {
    open spec fn parse(s: Seq<u8>) -> Parsed<u128> {
        match parse_be(s, 16) {
            Ok((v, n)) => Ok((v as u128, n)),
            Err(e) => Err(e),
        }
    }

    proof fn lemma_round_trip(v: u128, rest: Seq<u8>) {
        lemma_pow256_sixteen();
        lemma_parse_be_round_trip(v as nat, 16, rest);
    }

    fn read(input: &[u8], pos: usize) -> (r: Result<(u128, usize), WireReadError>) {
        proof {
            lemma_pow256_sixteen();
        }
        read_wide(input, pos)
    }
}

impl WireWrite for i128 {
    open spec fn valid(v: i128) -> bool {
        true
    }

    /// Two's complement, big-endian.
    open spec fn wire(v: i128) -> Seq<u8> {
        be_bytes((v as u128) as nat, 16)
    }

    fn write(&self, out: &mut Vec<u8>) {
        push_be(out, *self as u128, 16);
    }
}

impl WireRead for i128 {
    open spec fn parse(s: Seq<u8>) -> Parsed<i128> {
        match parse_be(s, 16) {
            Ok((v, n)) => Ok(((v as u128) as i128, n)),
            Err(e) => Err(e),
        }
    }

    proof fn lemma_round_trip(v: i128, rest: Seq<u8>) {
        lemma_pow256_sixteen();
        lemma_parse_be_round_trip((v as u128) as nat, 16, rest);
        assert(((v as u128) as i128) == v) by (bit_vector);
    }

    fn read(input: &[u8], pos: usize) -> (r: Result<(i128, usize), WireReadError>) {
        proof {
            lemma_pow256_sixteen();
        }
        match read_wide(input, pos) {
            Ok((v, p)) => Ok((v as i128, p)),
            Err(e) => Err(e),
        }
    }
}

/// Appends the bytes of `bytes` to `out`.
pub(crate) fn push_all(out: &mut Vec<u8>, bytes: &[u8])
    ensures
        final(out)@ == old(out)@ + bytes@,
{
    let ghost start = out@;
    let mut i: usize = 0;
    while i < bytes.len()
        invariant
            i <= bytes@.len(),
            out@ == start + bytes@.take(i as int),
        decreases bytes@.len() - i,
    {
        out.push(bytes[i]);
        i = i + 1;
        assert(out@ =~= start + bytes@.take(i as int));
    }
    assert(bytes@.take(i as int) =~= bytes@);
}

/// Copies `input[from..to]` into a new vector.
fn copy_range(input: &[u8], from: usize, to: usize) -> (r: Vec<u8>)
    requires
        from <= to <= input@.len(),
    ensures
        r@ == input@.subrange(from as int, to as int),
{
    let mut r: Vec<u8> = Vec::new();
    let mut i: usize = from;
    while i < to
        invariant
            from <= i <= to <= input@.len(),
            r@ == input@.subrange(from as int, i as int),
        decreases to - i,
    {
        r.push(input[i]);
        i = i + 1;
        assert(r@ =~= input@.subrange(from as int, i as int));
    }
    r
}

/// Relies on `String::from_utf8`: it succeeds exactly when the bytes are
/// valid UTF-8, and the string it returns is made of those bytes.
#[verifier::external_body]
pub(crate) fn utf8_string(bytes: Vec<u8>) -> (r: Option<String>)
    ensures
        r is Some <==> valid_utf8(bytes@),
        r matches Some(s) ==> encode_utf8(s@) == bytes@,
{
    match String::from_utf8(bytes) {
        Ok(s) => Some(s),
        Err(_) => None,
    }
}

impl WireWrite for String {
    open spec fn valid(v: Seq<char>) -> bool {
        encode_utf8(v).len() < pow256(8)
    }

    open spec fn wire(v: Seq<char>) -> Seq<u8> {
        be_bytes(encode_utf8(v).len(), 8) + encode_utf8(v)
    }

    fn write(&self, out: &mut Vec<u8>) {
        let bytes = self.as_str().as_bytes();
        proof {
            lemma_pow256_eight();
        }
        push_be(out, bytes.len() as u128, 8);
        push_all(out, bytes);
        assert(final(out)@ =~= old(out)@ + Self::wire(self.deep_view()));
    }
}

impl WireRead for String {
    open spec fn parse(s: Seq<u8>) -> Parsed<Seq<char>> {
        match parse_be(s, 8) {
            Err(e) => Err(e),
            Ok((len, k)) => {
                if s.len() < k + len {
                    Err(WireReadError::Truncated)
                } else if valid_utf8(s.subrange(k as int, (k + len) as int)) {
                    Ok((decode_utf8(s.subrange(k as int, (k + len) as int)), k + len))
                } else {
                    Err(WireReadError::InvalidUtf8)
                }
            },
        }
    }

    proof fn lemma_round_trip(v: Seq<char>, rest: Seq<u8>) {
        let bytes = encode_utf8(v);
        let s = Self::wire(v) + rest;
        lemma_pow256_eight();
        lemma_parse_be_round_trip(bytes.len(), 8, bytes + rest);
        assert(s =~= be_bytes(bytes.len(), 8) + (bytes + rest));
        assert(s.subrange(8, 8 + bytes.len() as int) =~= bytes);
        encode_utf8_valid_utf8(v);
        encode_utf8_decode_utf8(v);
    }

    fn read(input: &[u8], pos: usize) -> (r: Result<(String, usize), WireReadError>) {
        let (len, p) = match read_fixed(input, pos, 8) {
            Ok(x) => x,
            Err(e) => return Err(e),
        };
        let ghost s = input@.skip(pos as int);
        if len > (input.len() - p) as u64 {
            return Err(WireReadError::Truncated);
        }
        let end = p + len as usize;
        let bytes = copy_range(input, p, end);
        assert(bytes@ =~= s.subrange(8, 8 + len));
        match utf8_string(bytes) {
            Some(text) => {
                proof {
                    encode_utf8_decode_utf8(text@);
                }
                Ok((text, end))
            },
            None => Err(WireReadError::InvalidUtf8),
        }
    }
}

impl<T: WireWrite> WireWrite for Option<T> {
    open spec fn valid(v: Option<T::V>) -> bool {
        match v {
            Some(x) => T::valid(x),
            None => true,
        }
    }

    open spec fn wire(v: Option<T::V>) -> Seq<u8> {
        match v {
            Some(x) => seq![1u8] + T::wire(x),
            None => seq![0u8],
        }
    }

    fn write(&self, out: &mut Vec<u8>) {
        match self {
            Some(x) => {
                out.push(1u8);
                x.write(out);
                assert(final(out)@ =~= old(out)@ + Self::wire(self.deep_view()));
            },
            None => {
                out.push(0u8);
                assert(final(out)@ =~= old(out)@ + Self::wire(self.deep_view()));
            },
        }
    }
}

impl<T: WireRead> WireRead for Option<T> {
    open spec fn parse(s: Seq<u8>) -> Parsed<Option<T::V>> {
        if s.len() == 0 {
            Err(WireReadError::Truncated)
        } else if s[0] == 0 {
            Ok((None, 1))
        } else if s[0] == 1 {
            match T::parse(s.skip(1)) {
                Ok((x, n)) => Ok((Some(x), n + 1)),
                Err(e) => Err(e),
            }
        } else {
            Err(WireReadError::InvalidDiscriminant(s[0]))
        }
    }

    proof fn lemma_round_trip(v: Option<T::V>, rest: Seq<u8>) {
        let s = Self::wire(v) + rest;
        match v {
            Some(x) => {
                assert(s.skip(1) =~= T::wire(x) + rest);
                T::lemma_round_trip(x, rest);
            },
            None => {},
        }
    }

    fn read(input: &[u8], pos: usize) -> (r: Result<(Option<T>, usize), WireReadError>) {
        if pos == input.len() {
            return Err(WireReadError::Truncated);
        }
        let tag = input[pos];
        if tag == 0 {
            Ok((None, pos + 1))
        } else if tag == 1 {
            assert(input@.skip(pos as int).skip(1) =~= input@.skip(pos + 1));
            match T::read(input, pos + 1) {
                Ok((x, q)) => Ok((Some(x), q)),
                Err(e) => Err(e),
            }
        } else {
            Err(WireReadError::InvalidDiscriminant(tag))
        }
    }
}

/// The encodings of the elements of `xs`, one after the other.
pub open spec fn wire_all<T: WireWrite>(xs: Seq<T::V>) -> Seq<u8>
    decreases xs.len(),
{
    if xs.len() == 0 {
        seq![]
    } else {
        wire_all::<T>(xs.drop_last()) + T::wire(xs.last())
    }
}

/// Decodes `n` values one after the other from the front of `s`.
pub open spec fn parse_n<T: WireRead>(s: Seq<u8>, n: nat) -> Parsed<Seq<T::V>>
    decreases n,
{
    if n == 0 {
        Ok((seq![], 0))
    } else {
        match parse_n::<T>(s, (n - 1) as nat) {
            Ok((xs, k)) => match T::parse(s.skip(k as int)) {
                Ok((x, m)) => Ok((xs.push(x), k + m)),
                Err(e) => Err(e),
            },
            Err(e) => Err(e),
        }
    }
}

proof fn lemma_parse_n_round_trip<T: WireRead>(xs: Seq<T::V>, rest: Seq<u8>)
    requires
        forall|i: int| 0 <= i < xs.len() ==> T::valid(#[trigger] xs[i]),
    ensures
        parse_n::<T>(wire_all::<T>(xs) + rest, xs.len()) == Parsed::Ok(
            (xs, wire_all::<T>(xs).len()),
        ),
    decreases xs.len(),
{
    if xs.len() == 0 {
        assert(xs =~= seq![]);
    } else {
        let init = xs.drop_last();
        let x = xs.last();
        let rest2 = T::wire(x) + rest;
        assert(wire_all::<T>(xs) + rest =~= wire_all::<T>(init) + rest2);
        assert(T::valid(xs[xs.len() - 1]));
        assert forall|i: int| 0 <= i < init.len() implies T::valid(#[trigger] init[i]) by {
            assert(init[i] == xs[i]);
        }
        lemma_parse_n_round_trip::<T>(init, rest2);
        let k = wire_all::<T>(init).len();
        assert((wire_all::<T>(xs) + rest).skip(k as int) =~= rest2);
        T::lemma_round_trip(x, rest);
        assert(init.push(x) =~= xs);
        assert(wire_all::<T>(xs).len() == k + T::wire(x).len());
        assert(parse_n::<T>(wire_all::<T>(xs) + rest, (xs.len() - 1) as nat) == Parsed::Ok(
            (init, k),
        ));
    }
}

proof fn lemma_parse_n_error_persists<T: WireRead>(s: Seq<u8>, i: nat, n: nat)
    requires
        i <= n,
        parse_n::<T>(s, i) is Err,
    ensures
        parse_n::<T>(s, n) == parse_n::<T>(s, i),
    decreases n,
{
    if i < n {
        lemma_parse_n_error_persists::<T>(s, i, (n - 1) as nat);
    }
}

impl<T: WireWrite> WireWrite for Vec<T> {
    open spec fn valid(v: Seq<T::V>) -> bool {
        &&& v.len() < pow256(8)
        &&& forall|i: int| 0 <= i < v.len() ==> T::valid(#[trigger] v[i])
    }

    open spec fn wire(v: Seq<T::V>) -> Seq<u8> {
        be_bytes(v.len(), 8) + wire_all::<T>(v)
    }

    fn write(&self, out: &mut Vec<u8>) {
        let ghost start = out@;
        let ghost items = self.deep_view();
        proof {
            lemma_pow256_eight();
        }
        push_be(out, self.len() as u128, 8);
        let mut i: usize = 0;
        while i < self.len()
            invariant
                i <= self@.len(),
                items == self.deep_view(),
                forall|j: int| 0 <= j < i ==> T::valid(#[trigger] items[j]),
                out@ == start + be_bytes(self@.len() as nat, 8) + wire_all::<T>(items.take(i as int)),
            decreases self@.len() - i,
        {
            self[i].write(out);
            proof {
                assert(items.take(i + 1).drop_last() =~= items.take(i as int));
                assert(out@ =~= start + be_bytes(self@.len() as nat, 8) + wire_all::<T>(
                    items.take(i + 1),
                ));
            }
            i = i + 1;
        }
        assert(items.take(i as int) =~= items);
    }
}

impl<T: WireRead> WireRead for Vec<T> {
    open spec fn parse(s: Seq<u8>) -> Parsed<Seq<T::V>> {
        match parse_be(s, 8) {
            Err(e) => Err(e),
            Ok((n, k)) => match parse_n::<T>(s.skip(k as int), n) {
                Ok((xs, m)) => Ok((xs, k + m)),
                Err(e) => Err(e),
            },
        }
    }

    proof fn lemma_round_trip(v: Seq<T::V>, rest: Seq<u8>) {
        let body = wire_all::<T>(v) + rest;
        lemma_parse_be_round_trip(v.len(), 8, body);
        assert(Self::wire(v) + rest =~= be_bytes(v.len(), 8) + body);
        assert((Self::wire(v) + rest).skip(8) =~= body);
        lemma_parse_n_round_trip::<T>(v, rest);
    }

    fn read(input: &[u8], pos: usize) -> (r: Result<(Vec<T>, usize), WireReadError>) {
        let (n, first) = match read_fixed(input, pos, 8) {
            Ok(x) => x,
            Err(e) => return Err(e),
        };
        let ghost s = input@.skip(pos as int);
        let ghost body = s.skip(8);
        assert(body =~= input@.skip(first as int));
        let mut items: Vec<T> = Vec::new();
        assert(items.deep_view() =~= seq![]);
        let mut p = first;
        let mut i: u64 = 0;
        while i < n
            invariant
                first == pos + 8,
                first <= p <= input@.len(),
                i <= n,
                body == input@.skip(first as int),
                body == input@.skip(pos as int).skip(8),
                parse_be(input@.skip(pos as int), 8) == Parsed::Ok((n as nat, 8nat)),
                parse_n::<T>(body, i as nat) == Parsed::Ok((items.deep_view(), (p - first) as nat)),
            decreases n - i,
        {
            assert(body.skip(p - first) =~= input@.skip(p as int));
            match T::read(input, p) {
                Ok((x, q)) => {
                    let ghost before = items.deep_view();
                    items.push(x);
                    assert(items.deep_view() =~= before.push(x.deep_view()));
                    p = q;
                    i = i + 1;
                },
                Err(e) => {
                    proof {
                        assert(parse_n::<T>(body, (i + 1) as nat) == Parsed::<Seq<T::V>>::Err(e));
                        lemma_parse_n_error_persists::<T>(body, (i + 1) as nat, n as nat);
                    }
                    return Err(e);
                },
            }
        }
        Ok((items, p))
    }
}

/// Decoding the encoding of a valid value gives back that value and consumes
/// the whole encoding; this holds for every wire type, empty strings, empty
/// sequences and absent optionals included.
pub proof fn lemma_decode_encode<T: WireRead>(v: T::V)
    requires
        T::valid(v),
    ensures
        T::parse(T::wire(v)) == Parsed::Ok((v, T::wire(v).len())),
{
    T::lemma_round_trip(v, seq![]);
    assert(T::wire(v) + seq![] =~= T::wire(v));
}

/// The encoding of a string is the 64-bit count of its UTF-8 bytes followed
/// by exactly those bytes.
pub proof fn lemma_string_length_prefix(v: Seq<char>)
    requires
        <String as WireWrite>::valid(v),
    ensures
        <String as WireWrite>::wire(v) == <u64 as WireWrite>::wire(encode_utf8(v).len() as u64)
            + encode_utf8(v),
{
    lemma_pow256_eight();
}

/// The encoding of a sequence is the 64-bit count of its elements followed by
/// exactly their encodings, in order.
pub proof fn lemma_sequence_length_prefix<T: WireWrite>(xs: Seq<T::V>)
    requires
        xs.len() < pow256(8),
    ensures
        <Vec<T> as WireWrite>::wire(xs) == <u64 as WireWrite>::wire(xs.len() as u64) + wire_all::<
            T,
        >(xs),
        xs.len() > 0 ==> wire_all::<T>(xs) == wire_all::<T>(xs.drop_last()) + T::wire(xs.last()),
{
    lemma_pow256_eight();
}

} // verus!
