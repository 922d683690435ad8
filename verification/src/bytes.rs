//! Canonical byte strings: validated lowercase hexadecimal text with
//! conversions to and from raw bytes and fixed-width integers.

use vstd::prelude::*;
use vstd::string::{StrSliceExecFns, StringExecFns, StringSliceAdditionalSpecFns};

verus! {

/// A canonical hex digit: `0-9` or lowercase `a-f`.
pub open spec fn is_hex_digit(c: char) -> bool {
    (48 <= c as int && c as int <= 57) || (97 <= c as int && c as int <= 102)
}

/// Every character of `s` is a canonical hex digit.
pub open spec fn all_hex(s: Seq<char>) -> bool {
    forall|i: int| 0 <= i < s.len() ==> is_hex_digit(#[trigger] s[i])
}

/// The numeric value of a hex digit.
pub open spec fn hex_digit_val(c: char) -> u8 {
    if 48 <= c as int && c as int <= 57 {
        (c as int - 48) as u8
    } else {
        (c as int - 87) as u8
    }
}

/// The lowercase hex digit for a value below 16.
pub open spec fn nibble_char(n: u8) -> char {
    if n < 10 {
        (48 + n as int) as char
    } else {
        (87 + n as int) as char
    }
}

/// The two-digit lowercase hex rendering of one byte.
pub open spec fn byte_hex(b: u8) -> Seq<char> {
    seq![nibble_char(b / 16), nibble_char(b % 16)]
}

/// The lowercase hex rendering of a byte sequence, in order.
pub open spec fn bytes_to_hex(bs: Seq<u8>) -> Seq<char>
    decreases bs.len(),
{
    if bs.len() == 0 {
        Seq::empty()
    } else {
        bytes_to_hex(bs.drop_last()) + byte_hex(bs.last())
    }
}

/// The bytes denoted by hex text, decoding digit pairs in order.
/// Meaningful only for even-length text of hex digits.
pub open spec fn hex_to_bytes(s: Seq<char>) -> Seq<u8>
    decreases s.len(),
{
    if s.len() < 2 {
        Seq::empty()
    } else {
        hex_to_bytes(s.take(s.len() - 2)) + seq![
            (hex_digit_val(s[s.len() - 2]) * 16 + hex_digit_val(s[s.len() - 1])) as u8,
        ]
    }
}

/// The number denoted by hex text read as a base-16 magnitude.
pub open spec fn hex_num(s: Seq<char>) -> nat
    decreases s.len(),
{
    if s.len() == 0 {
        0
    } else {
        (hex_num(s.drop_last()) * 16 + hex_digit_val(s.last())) as nat
    }
}

/// The `n` low-order bytes of `v`, most significant first.
pub open spec fn be_bytes(v: nat, n: nat) -> Seq<u8>
    decreases n,
{
    if n == 0 {
        Seq::empty()
    } else {
        be_bytes(v / 256, (n - 1) as nat) + seq![(v % 256) as u8]
    }
}

/// The number a big-endian byte sequence denotes.
pub open spec fn be_num(bs: Seq<u8>) -> nat
    decreases bs.len(),
{
    if bs.len() == 0 {
        0
    } else {
        (be_num(bs.drop_last()) * 256 + bs.last()) as nat
    }
}

/// The two's-complement bit pattern of a signed value, as a magnitude:
/// nonnegative values stand for themselves, negative ones are offset by the
/// type's modulus `m`.
pub open spec fn signed_bits(v: int, m: nat) -> nat {
    if v >= 0 {
        v as nat
    } else {
        (v + m) as nat
    }
}

/// ASCII lowercasing of one character: `A-Z` map to `a-z`, all else is kept.
pub open spec fn lower_char(c: char) -> char {
    if 65 <= c as int && c as int <= 90 {
        (c as int + 32) as char
    } else {
        c
    }
}

/// ASCII lowercasing of text, character by character.
pub open spec fn lower_chars(s: Seq<char>) -> Seq<char> {
    Seq::new(s.len(), |i: int| lower_char(s[i]))
}

/// Why text failed hex validation or decoding.
#[derive(Clone, Copy, Debug, PartialEq, Eq, Structural)]
pub enum HexError {
    /// A character outside `0-9a-f` survived lowercasing, at this index.
    InvalidHexCharacter { c: char, index: usize },
    /// The text cannot be paired into bytes.
    OddLength,
}

/// Why a byte string could not convert to a fixed-width integer.
#[derive(Clone, Copy, Debug, PartialEq, Eq, Structural)]
pub enum NumError {
    /// The text is empty.
    Empty,
    /// The denoted value does not fit the requested type.
    Overflow,
}

/// An immutable, canonical lowercase hexadecimal string.
///
/// Every character is one of `0-9a-f`; the length may be odd, in which case
/// decoding to bytes fails rather than construction.
#[derive(Debug, Eq, Hash)]
pub struct ByteString {
    hex: String,
}

impl Clone for ByteString {
    fn clone(&self) -> (r: ByteString)
        ensures
            r == *self,
    {
        proof {
            use_type_invariant(self);
        }
        ByteString { hex: self.hex.clone() }
    }
}

impl PartialEq for ByteString {
    /// Byte strings compare by their canonical lowercase text.
    fn eq(&self, other: &ByteString) -> (r: bool) {
        self.hex == other.hex
    }
}

impl vstd::std_specs::cmp::PartialEqSpecImpl for ByteString {
    open spec fn obeys_eq_spec() -> bool {
        true
    }

    open spec fn eq_spec(&self, other: &ByteString) -> bool {
        self@ == other@
    }
}

impl View for ByteString {
    type V = Seq<char>;

    closed spec fn view(&self) -> Seq<char> {
        self.hex@
    }
}

impl ByteString {
    #[verifier::type_invariant]
    spec fn well_formed(self) -> bool {
        all_hex(self.hex@)
    }

    /// The canonical lowercase hex text.
    pub fn into_hex(self) -> (r: String)
        ensures
            r@ == self@,
    {
        self.hex
    }

    /// Encodes a byte sequence: each byte becomes two lowercase hex digits,
    /// in sequence order.  Always succeeds.
    pub fn from_bytes(value: &[u8]) -> (r: ByteString)
        ensures
            r@ == bytes_to_hex(value@),
    {
        let mut out = String::new();
        let n = value.len();
        let mut i: usize = 0;
        while i < n
            invariant
                n == value@.len(),
                0 <= i <= n,
                out@ =~= bytes_to_hex(value@.take(i as int)),
                all_hex(out@),
            decreases n - i,
        {
            let b = value[i];
            let hi = nibble_str(b / 16);
            let lo = nibble_str(b % 16);
            out.append(hi);
            out.append(lo);
            proof {
                let pre = value@.take(i as int);
                let post = value@.take(i + 1);
                assert(post.drop_last() =~= pre);
                assert(post.last() == value@[i as int]);
                assert(out@ =~= bytes_to_hex(post));
            }
            i = i + 1;
        }
        proof {
            assert(value@.take(n as int) =~= value@);
        }
        ByteString { hex: out }
    }

    /// Lowercases the text and accepts it only if every character is a hex
    /// digit; otherwise reports the first offending character and its index.
    /// The length is not checked here, so odd-length hex text is accepted.
    pub fn from_hex(text: &str) -> (r: Result<ByteString, HexError>)
        ensures
            ({
                let l = lower_chars(text@);
                match r {
                    Ok(b) => all_hex(l) && b@ == l,
                    Err(HexError::InvalidHexCharacter { c, index }) => {
                        &&& index < l.len()
                        &&& c == l[index as int]
                        &&& !is_hex_digit(l[index as int])
                        &&& forall|j: int| 0 <= j < index ==> is_hex_digit(l[j])
                    },
                    Err(HexError::OddLength) => false,
                }
            }),
    {
        let ghost l = lower_chars(text@);
        let n = text.unicode_len();
        let mut out = String::new();
        let mut i: usize = 0;
        while i < n
            invariant
                n == text@.len(),
                l == lower_chars(text@),
                0 <= i <= n,
                out@ =~= l.take(i as int),
                all_hex(out@),
            decreases n - i,
        {
            let lc = to_lower(text.get_char(i));
            match hex_val_opt(lc) {
                Some(v) => {
                    out.append(nibble_str(v));
                    proof {
                        assert(nibble_char(hex_digit_val(lc)) == lc);
                        assert(out@ =~= l.take(i + 1));
                    }
                },
                None => {
                    proof {
                        assert forall|j: int| 0 <= j < i implies is_hex_digit(l[j]) by {
                            assert(out@[j] == l[j]);
                            assert(is_hex_digit(out@[j]));
                        }
                    }
                    return Err(HexError::InvalidHexCharacter { c: lc, index: i });
                },
            }
            i = i + 1;
        }
        proof {
            assert(out@ =~= l);
        }
        Ok(ByteString { hex: out })
    }

    /// Decodes the hex text into bytes, two digits to a byte in order.
    /// Fails exactly when the length is odd, the one defect construction
    /// cannot see.
    pub fn bytes(&self) -> (r: Result<Vec<u8>, HexError>)
        ensures
            self@.len() % 2 == 0 ==> (r matches Ok(v) && v@ == hex_to_bytes(self@)),
            self@.len() % 2 != 0 ==> r == Err::<Vec<u8>, HexError>(HexError::OddLength),
    {
        proof {
            use_type_invariant(self);
        }
        let s = self.hex.as_str();
        let n = s.unicode_len();
        if n % 2 != 0 {
            return Err(HexError::OddLength);
        }
        let mut v: Vec<u8> = Vec::new();
        let mut i: usize = 0;
        while i < n / 2
            invariant
                n == self@.len(),
                n % 2 == 0,
                s@ == self@,
                all_hex(self@),
                0 <= i <= n / 2,
                v@ =~= hex_to_bytes(self@.take(2 * i)),
            decreases n / 2 - i,
        {
            let hi = hex_val(s.get_char(2 * i));
            let lo = hex_val(s.get_char(2 * i + 1));
            v.push(hi * 16 + lo);
            proof {
                let pre = self@.take(2 * i);
                let post = self@.take(2 * (i + 1));
                assert(post.take(post.len() - 2) =~= pre);
                assert(post[post.len() - 2] == self@[2 * i]);
                assert(post[post.len() - 1] == self@[2 * i + 1]);
                assert(v@ =~= hex_to_bytes(post));
            }
            i = i + 1;
        }
        proof {
            assert(self@.take(n as int) =~= self@);
        }
        Ok(v)
    }

    /// Interprets arbitrary text: hex if it validates, otherwise the text's
    /// raw bytes are hex-encoded.  Text that happens to look like hex is
    /// therefore read as hex, never as literal bytes.
    pub fn from_text(text: &str) -> (r: ByteString)
        ensures
            all_hex(lower_chars(text@)) ==> r@ == lower_chars(text@),
            !all_hex(lower_chars(text@)) ==> r@ == bytes_to_hex(text.spec_bytes()),
    {
        match ByteString::from_hex(text) {
            Ok(b) => b,
            Err(_) => ByteString::from_bytes(text.as_bytes()),
        }
    }

    /// Parses the hex text as an unsigned base-16 magnitude.
    pub fn to_u64(&self) -> (r: Result<u64, NumError>)
        ensures
            self@.len() == 0 ==> r == Err::<u64, NumError>(NumError::Empty),
            self@.len() > 0 && hex_num(self@) <= u64::MAX ==> r == Ok::<u64, NumError>(
                hex_num(self@) as u64,
            ),
            hex_num(self@) > u64::MAX ==> r == Err::<u64, NumError>(NumError::Overflow),
    {
        proof {
            use_type_invariant(self);
        }
        let s = self.hex.as_str();
        let n = s.unicode_len();
        if n == 0 {
            return Err(NumError::Empty);
        }
        let mut acc: u64 = 0;
        let mut i: usize = 0;
        while i < n
            invariant
                n == self@.len(),
                s@ == self@,
                all_hex(self@),
                0 <= i <= n,
                acc as nat == hex_num(self@.take(i as int)),
            decreases n - i,
        {
            let d = hex_val(s.get_char(i));
            proof {
                let pre = self@.take(i as int);
                let post = self@.take(i + 1);
                assert(post.drop_last() =~= pre);
                assert(post.last() == self@[i as int]);
                vstd::arithmetic::div_mod::lemma_fundamental_div_mod(
                    (u64::MAX - d) as int,
                    16,
                );
            }
            if acc > (u64::MAX - d as u64) / 16 {
                proof {
                    assert(hex_num(self@.take(i + 1)) > u64::MAX);
                    lemma_hex_num_prefix(self@, i + 1);
                }
                return Err(NumError::Overflow);
            }
            acc = acc * 16 + d as u64;
            i = i + 1;
        }
        proof {
            assert(self@.take(n as int) =~= self@);
        }
        Ok(acc)
    }

    /// Parses the hex text as a magnitude that must fit in `u8`.
    pub fn to_u8(&self) -> (r: Result<u8, NumError>)
        ensures
            self@.len() == 0 ==> r == Err::<u8, NumError>(NumError::Empty),
            self@.len() > 0 && hex_num(self@) <= u8::MAX ==> r == Ok::<u8, NumError>(
                hex_num(self@) as u8,
            ),
            hex_num(self@) > u8::MAX ==> r == Err::<u8, NumError>(NumError::Overflow),
    {
        match self.to_u64() {
            Ok(v) => if v <= 0xff {
                Ok(v as u8)
            } else {
                Err(NumError::Overflow)
            },
            Err(e) => Err(e),
        }
    }

    /// Parses the hex text as a magnitude that must fit in `u16`.
    pub fn to_u16(&self) -> (r: Result<u16, NumError>)
        ensures
            self@.len() == 0 ==> r == Err::<u16, NumError>(NumError::Empty),
            self@.len() > 0 && hex_num(self@) <= u16::MAX ==> r == Ok::<u16, NumError>(
                hex_num(self@) as u16,
            ),
            hex_num(self@) > u16::MAX ==> r == Err::<u16, NumError>(NumError::Overflow),
    {
        match self.to_u64() {
            Ok(v) => if v <= 0xffff {
                Ok(v as u16)
            } else {
                Err(NumError::Overflow)
            },
            Err(e) => Err(e),
        }
    }

    /// Parses the hex text as a magnitude that must fit in `u32`.
    pub fn to_u32(&self) -> (r: Result<u32, NumError>)
        ensures
            self@.len() == 0 ==> r == Err::<u32, NumError>(NumError::Empty),
            self@.len() > 0 && hex_num(self@) <= u32::MAX ==> r == Ok::<u32, NumError>(
                hex_num(self@) as u32,
            ),
            hex_num(self@) > u32::MAX ==> r == Err::<u32, NumError>(NumError::Overflow),
    {
        match self.to_u64() {
            Ok(v) => if v <= 0xffff_ffff {
                Ok(v as u32)
            } else {
                Err(NumError::Overflow)
            },
            Err(e) => Err(e),
        }
    }

    /// Parses the hex text as a magnitude that must fit in `usize`.
    pub fn to_usize(&self) -> (r: Result<usize, NumError>)
        ensures
            self@.len() == 0 ==> r == Err::<usize, NumError>(NumError::Empty),
            self@.len() > 0 && hex_num(self@) <= usize::MAX ==> r == Ok::<usize, NumError>(
                hex_num(self@) as usize,
            ),
            hex_num(self@) > usize::MAX ==> r == Err::<usize, NumError>(NumError::Overflow),
    {
        match self.to_u64() {
            Ok(v) => if v <= usize::MAX as u64 {
                Ok(v as usize)
            } else {
                Err(NumError::Overflow)
            },
            Err(e) => Err(e),
        }
    }

    /// Parses the hex text as a magnitude that must fit in `i8::MAX`.
    pub fn to_i8(&self) -> (r: Result<i8, NumError>)
        ensures
            self@.len() == 0 ==> r == Err::<i8, NumError>(NumError::Empty),
            self@.len() > 0 && hex_num(self@) <= i8::MAX ==> r == Ok::<i8, NumError>(
                hex_num(self@) as i8,
            ),
            hex_num(self@) > i8::MAX ==> r == Err::<i8, NumError>(NumError::Overflow),
    {
        match self.to_u64() {
            Ok(v) => if v <= 0x7f {
                Ok(v as i8)
            } else {
                Err(NumError::Overflow)
            },
            Err(e) => Err(e),
        }
    }

    /// Parses the hex text as a magnitude that must fit in `i16::MAX`.
    pub fn to_i16(&self) -> (r: Result<i16, NumError>)
        ensures
            self@.len() == 0 ==> r == Err::<i16, NumError>(NumError::Empty),
            self@.len() > 0 && hex_num(self@) <= i16::MAX ==> r == Ok::<i16, NumError>(
                hex_num(self@) as i16,
            ),
            hex_num(self@) > i16::MAX ==> r == Err::<i16, NumError>(NumError::Overflow),
    {
        match self.to_u64() {
            Ok(v) => if v <= 0x7fff {
                Ok(v as i16)
            } else {
                Err(NumError::Overflow)
            },
            Err(e) => Err(e),
        }
    }

    /// Parses the hex text as a magnitude that must fit in `i32::MAX`.
    pub fn to_i32(&self) -> (r: Result<i32, NumError>)
        ensures
            self@.len() == 0 ==> r == Err::<i32, NumError>(NumError::Empty),
            self@.len() > 0 && hex_num(self@) <= i32::MAX ==> r == Ok::<i32, NumError>(
                hex_num(self@) as i32,
            ),
            hex_num(self@) > i32::MAX ==> r == Err::<i32, NumError>(NumError::Overflow),
    {
        match self.to_u64() {
            Ok(v) => if v <= 0x7fff_ffff {
                Ok(v as i32)
            } else {
                Err(NumError::Overflow)
            },
            Err(e) => Err(e),
        }
    }

    /// Parses the hex text as a magnitude that must fit in `i64::MAX`.
    pub fn to_i64(&self) -> (r: Result<i64, NumError>)
        ensures
            self@.len() == 0 ==> r == Err::<i64, NumError>(NumError::Empty),
            self@.len() > 0 && hex_num(self@) <= i64::MAX ==> r == Ok::<i64, NumError>(
                hex_num(self@) as i64,
            ),
            hex_num(self@) > i64::MAX ==> r == Err::<i64, NumError>(NumError::Overflow),
    {
        match self.to_u64() {
            Ok(v) => if v <= 0x7fff_ffff_ffff_ffff {
                Ok(v as i64)
            } else {
                Err(NumError::Overflow)
            },
            Err(e) => Err(e),
        }
    }

    /// Parses the hex text as a magnitude that must fit in `isize::MAX`.
    pub fn to_isize(&self) -> (r: Result<isize, NumError>)
        ensures
            self@.len() == 0 ==> r == Err::<isize, NumError>(NumError::Empty),
            self@.len() > 0 && hex_num(self@) <= isize::MAX ==> r == Ok::<isize, NumError>(
                hex_num(self@) as isize,
            ),
            hex_num(self@) > isize::MAX ==> r == Err::<isize, NumError>(NumError::Overflow),
    {
        match self.to_u64() {
            Ok(v) => if v <= isize::MAX as u64 {
                Ok(v as isize)
            } else {
                Err(NumError::Overflow)
            },
            Err(e) => Err(e),
        }
    }

    /// Encodes the full big-endian byte width of a `u8`.
    pub fn from_u8(v: u8) -> (r: ByteString)
        ensures
            r@ == bytes_to_hex(be_bytes(v as nat, 1)),
    {
        ByteString::from_width(v as u64, 1)
    }

    /// Encodes the full big-endian byte width of a `u16`.
    pub fn from_u16(v: u16) -> (r: ByteString)
        ensures
            r@ == bytes_to_hex(be_bytes(v as nat, 2)),
    {
        ByteString::from_width(v as u64, 2)
    }

    /// Encodes the full big-endian byte width of a `u32`.
    pub fn from_u32(v: u32) -> (r: ByteString)
        ensures
            r@ == bytes_to_hex(be_bytes(v as nat, 4)),
    {
        ByteString::from_width(v as u64, 4)
    }

    /// Encodes the full big-endian byte width of a `u64`.
    pub fn from_u64(v: u64) -> (r: ByteString)
        ensures
            r@ == bytes_to_hex(be_bytes(v as nat, 8)),
    {
        ByteString::from_width(v, 8)
    }

    /// Encodes a `usize` as eight big-endian bytes.
    pub fn from_usize(v: usize) -> (r: ByteString)
        ensures
            r@ == bytes_to_hex(be_bytes(v as nat, 8)),
    {
        ByteString::from_width(v as u64, 8)
    }

    /// Encodes the two's-complement byte of an `i8`.
    pub fn from_i8(v: i8) -> (r: ByteString)
        ensures
            r@ == bytes_to_hex(be_bytes(signed_bits(v as int, 0x100), 1)),
    {
        let b: u64 = if v >= 0 {
            v as u64
        } else {
            (v as i16 + 0x100) as u64
        };
        ByteString::from_width(b, 1)
    }

    /// Encodes the two's-complement big-endian bytes of an `i16`.
    pub fn from_i16(v: i16) -> (r: ByteString)
        ensures
            r@ == bytes_to_hex(be_bytes(signed_bits(v as int, 0x1_0000), 2)),
    {
        let b: u64 = if v >= 0 {
            v as u64
        } else {
            (v as i32 + 0x1_0000) as u64
        };
        ByteString::from_width(b, 2)
    }

    /// Encodes the two's-complement big-endian bytes of an `i32`.
    pub fn from_i32(v: i32) -> (r: ByteString)
        ensures
            r@ == bytes_to_hex(be_bytes(signed_bits(v as int, 0x1_0000_0000), 4)),
    {
        let b: u64 = if v >= 0 {
            v as u64
        } else {
            (v as i64 + 0x1_0000_0000) as u64
        };
        ByteString::from_width(b, 4)
    }

    /// Encodes the two's-complement big-endian bytes of an `i64`.
    pub fn from_i64(v: i64) -> (r: ByteString)
        ensures
            r@ == bytes_to_hex(be_bytes(signed_bits(v as int, 0x1_0000_0000_0000_0000), 8)),
    {
        let b: u64 = if v >= 0 {
            v as u64
        } else {
            ((v as i128) + 0x1_0000_0000_0000_0000i128) as u64
        };
        ByteString::from_width(b, 8)
    }

    /// Encodes the two's-complement bytes of an `isize`, eight bytes wide.
    pub fn from_isize(v: isize) -> (r: ByteString)
        ensures
            r@ == bytes_to_hex(be_bytes(signed_bits(v as int, 0x1_0000_0000_0000_0000), 8)),
    {
        ByteString::from_i64(v as i64)
    }

    /// Encodes the `n` low-order big-endian bytes of `v`.
    fn from_width(v: u64, n: usize) -> (r: ByteString)
        ensures
            r@ == bytes_to_hex(be_bytes(v as nat, n as nat)),
    {
        let mut bs: Vec<u8> = Vec::new();
        push_be_bytes(v, n, &mut bs);
        proof {
            assert(bs@ =~= be_bytes(v as nat, n as nat));
        }
        ByteString::from_bytes(bs.as_slice())
    }
}

/// Appends the `n` low-order big-endian bytes of `v` to `out`.
fn push_be_bytes(v: u64, n: usize, out: &mut Vec<u8>)
    ensures
        final(out)@ == old(out)@ + be_bytes(v as nat, n as nat),
    decreases n,
{
    if n == 0 {
        proof {
            assert(out@ =~= old(out)@ + be_bytes(v as nat, 0));
        }
    } else {
        push_be_bytes(v / 256, n - 1, out);
        out.push((v % 256) as u8);
        proof {
            assert(out@ =~= old(out)@ + be_bytes(v as nat, n as nat));
        }
    }
}

/// Law: encoding bytes as hex and decoding the hex recovers the bytes.
/// The encoding is twice as long as the input and is canonical hex, so the
/// decode of `from_bytes` always succeeds (the length is even) and yields
/// the input bytes.
pub proof fn lemma_bytes_hex_round_trip(bs: Seq<u8>)
    ensures
        bytes_to_hex(bs).len() == 2 * bs.len(),
        all_hex(bytes_to_hex(bs)),
        hex_to_bytes(bytes_to_hex(bs)) == bs,
    decreases bs.len(),
{
    if bs.len() == 0 {
        assert(hex_to_bytes(bytes_to_hex(bs)) =~= bs);
    } else {
        lemma_bytes_hex_round_trip(bs.drop_last());
        let h = bytes_to_hex(bs);
        let hd = bytes_to_hex(bs.drop_last());
        let b = bs.last();
        vstd::arithmetic::div_mod::lemma_fundamental_div_mod(b as int, 16);
        assert(all_hex(h)) by {
            assert forall|i: int| 0 <= i < h.len() implies is_hex_digit(h[i]) by {
                if i < hd.len() {
                    assert(h[i] == hd[i]);
                } else {
                    assert(h[i] == byte_hex(b)[i - hd.len()]);
                }
            }
        }
        assert(h.take(h.len() - 2) =~= hd);
        assert(hex_to_bytes(h) =~= bs);
    }
}

/// Law: lowercasing leaves canonical hex text unchanged, so validation of
/// already-canonical text accepts it verbatim.
pub proof fn lemma_lower_fixes_hex(s: Seq<char>)
    requires
        all_hex(s),
    ensures
        lower_chars(s) == s,
{
    assert forall|i: int| 0 <= i < s.len() implies lower_chars(s)[i] == s[i] by {
        assert(is_hex_digit(s[i]));
    }
    assert(lower_chars(s) =~= s);
}

/// Law: the hex text of a value's big-endian bytes denotes the value again.
/// For a value below `256^n`, the `n`-byte encoding reads back as the same
/// magnitude, and its text is `2 * n` digits long, hence never empty for a
/// positive width.
pub proof fn lemma_value_round_trip(v: nat, n: nat)
    requires
        v < vstd::arithmetic::power::pow(256, n),
    ensures
        bytes_to_hex(be_bytes(v, n)).len() == 2 * n,
        hex_num(bytes_to_hex(be_bytes(v, n))) == v,
{
    lemma_be_bytes_len(v, n);
    lemma_bytes_hex_round_trip(be_bytes(v, n));
    lemma_hex_num_of_bytes(be_bytes(v, n));
    lemma_be_bytes_value(v, n);
}

/// The hex encoding of bytes denotes the same number the bytes do.
proof fn lemma_hex_num_of_bytes(bs: Seq<u8>)
    ensures
        hex_num(bytes_to_hex(bs)) == be_num(bs),
    decreases bs.len(),
{
    if bs.len() > 0 {
        lemma_hex_num_of_bytes(bs.drop_last());
        let h = bytes_to_hex(bs);
        let hd = bytes_to_hex(bs.drop_last());
        let b = bs.last();
        let mid = hd + seq![nibble_char(b / 16)];
        assert(h.drop_last() =~= mid);
        assert(mid.drop_last() =~= hd);
        assert(mid.last() == nibble_char(b / 16));
        assert(h.last() == nibble_char(b % 16));
        assert(hex_digit_val(nibble_char(b / 16)) == b / 16);
        assert(hex_digit_val(nibble_char(b % 16)) == b % 16);
        vstd::arithmetic::div_mod::lemma_fundamental_div_mod(b as int, 16);
        assert(hex_num(mid) == hex_num(hd) * 16 + b / 16);
        assert(hex_num(h) == hex_num(mid) * 16 + b % 16);
        assert(hex_num(h) == be_num(bs.drop_last()) * 256 + (b / 16) * 16 + b % 16);
    }
}

/// `be_bytes` produces exactly `n` bytes.
proof fn lemma_be_bytes_len(v: nat, n: nat)
    ensures
        be_bytes(v, n).len() == n,
    decreases n,
{
    if n > 0 {
        lemma_be_bytes_len(v / 256, (n - 1) as nat);
    }
}

/// A value below `256^n` is denoted by its own `n` big-endian bytes.
proof fn lemma_be_bytes_value(v: nat, n: nat)
    requires
        v < vstd::arithmetic::power::pow(256, n),
    ensures
        be_num(be_bytes(v, n)) == v,
    decreases n,
{
    reveal(vstd::arithmetic::power::pow);
    if n == 0 {
        assert(vstd::arithmetic::power::pow(256, 0) == 1);
    } else {
        let p = vstd::arithmetic::power::pow(256, (n - 1) as nat);
        assert(vstd::arithmetic::power::pow(256, n) == 256 * p);
        vstd::arithmetic::div_mod::lemma_fundamental_div_mod(v as int, 256);
        assert(v / 256 < p) by {
            if v / 256 >= p {
                assert((v / 256) * 256 >= p * 256) by (nonlinear_arith)
                    requires
                        v / 256 >= p,
                ;
            }
        }
        lemma_be_bytes_value(v / 256, (n - 1) as nat);
        lemma_be_bytes_len(v / 256, (n - 1) as nat);
        assert(be_bytes(v, n).drop_last() =~= be_bytes(v / 256, (n - 1) as nat));
    }
}

/// The value of any prefix of hex text is at most the value of the whole.
proof fn lemma_hex_num_prefix(s: Seq<char>, i: int)
    requires
        0 <= i <= s.len(),
    ensures
        hex_num(s.take(i)) <= hex_num(s),
    decreases s.len() - i,
{
    if i == s.len() {
        assert(s.take(i) =~= s);
    } else {
        lemma_hex_num_prefix(s, i + 1);
        assert(s.take(i + 1).drop_last() =~= s.take(i));
    }
}

/// The value of a character known to be a hex digit.
fn hex_val(c: char) -> (r: u8)
    requires
        is_hex_digit(c),
    ensures
        r == hex_digit_val(c),
        r < 16,
{
    match hex_val_opt(c) {
        Some(v) => v,
        None => 0,
    }
}

/// ASCII-lowercases one character.
fn to_lower(c: char) -> (r: char)
    ensures
        r == lower_char(c),
{
    match c {
        'A' => 'a',
        'B' => 'b',
        'C' => 'c',
        'D' => 'd',
        'E' => 'e',
        'F' => 'f',
        'G' => 'g',
        'H' => 'h',
        'I' => 'i',
        'J' => 'j',
        'K' => 'k',
        'L' => 'l',
        'M' => 'm',
        'N' => 'n',
        'O' => 'o',
        'P' => 'p',
        'Q' => 'q',
        'R' => 'r',
        'S' => 's',
        'T' => 't',
        'U' => 'u',
        'V' => 'v',
        'W' => 'w',
        'X' => 'x',
        'Y' => 'y',
        'Z' => 'z',
        _ => c,
    }
}

/// The value of a hex digit, or `None` for any other character.
fn hex_val_opt(c: char) -> (r: Option<u8>)
    ensures
        match r {
            Some(v) => is_hex_digit(c) && v == hex_digit_val(c) && v < 16,
            None => !is_hex_digit(c),
        },
{
    match c {
        '0' => Some(0),
        '1' => Some(1),
        '2' => Some(2),
        '3' => Some(3),
        '4' => Some(4),
        '5' => Some(5),
        '6' => Some(6),
        '7' => Some(7),
        '8' => Some(8),
        '9' => Some(9),
        'a' => Some(10),
        'b' => Some(11),
        'c' => Some(12),
        'd' => Some(13),
        'e' => Some(14),
        'f' => Some(15),
        _ => None,
    }
}

/// The one-character string for a value below 16, as a lowercase hex digit.
fn nibble_str(n: u8) -> (r: &'static str)
    requires
        n < 16,
    ensures
        r@ =~= seq![nibble_char(n)],
        is_hex_digit(nibble_char(n)),
{
    proof {
        reveal_strlit("0");
        reveal_strlit("1");
        reveal_strlit("2");
        reveal_strlit("3");
        reveal_strlit("4");
        reveal_strlit("5");
        reveal_strlit("6");
        reveal_strlit("7");
        reveal_strlit("8");
        reveal_strlit("9");
        reveal_strlit("a");
        reveal_strlit("b");
        reveal_strlit("c");
        reveal_strlit("d");
        reveal_strlit("e");
        reveal_strlit("f");
    }
    if n == 0 {
        "0"
    } else if n == 1 {
        "1"
    } else if n == 2 {
        "2"
    } else if n == 3 {
        "3"
    } else if n == 4 {
        "4"
    } else if n == 5 {
        "5"
    } else if n == 6 {
        "6"
    } else if n == 7 {
        "7"
    } else if n == 8 {
        "8"
    } else if n == 9 {
        "9"
    } else if n == 10 {
        "a"
    } else if n == 11 {
        "b"
    } else if n == 12 {
        "c"
    } else if n == 13 {
        "d"
    } else if n == 14 {
        "e"
    } else {
        "f"
    }
}

} // verus!
