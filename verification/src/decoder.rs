//! The tag-dispatching decoder and the generic decode protocol.
//!
//! A `Decoder` is bound to one byte source for its whole life and is consumed
//! across one top-level decode: a structured-type decoding routine drives it
//! by calling the `decode_*` methods in the order of the expected schema. The
//! decoder never looks ahead beyond the single byte that optional-value
//! testing needs. Its view is the remaining byte stream, the lookahead byte
//! included; every method's contract is an exact match against the
//! specification-level parsers of [`crate::format`].

use vstd::prelude::*;

use crate::error::{DecodeError, TagKind};
use crate::format::{
    be_bytes, lemma_be_bytes_bound, lemma_be_bytes_u64, lemma_pow256_values, lemma_window,
    parse_bool, parse_float32_bits, parse_float64_bits, parse_map_length, parse_nil,
    parse_sequence_length, parse_signed, parse_string, parse_unsigned, pow256, Parsed,
};
use crate::source::ByteSource;
use vstd::utf8::{decode_utf8, valid_utf8};

verus! {

/// Relies on alloc's `String::from_utf8`: it returns the string whose bytes
/// are the input exactly when the input is well-formed UTF-8, and rejects
/// the input otherwise.
#[verifier::external_body]
fn bytes_to_string(bytes: Vec<u8>) -> (r: Option<String>)
    ensures
        r is Some <==> valid_utf8(bytes@),
        r matches Some(s) ==> s@ == decode_utf8(bytes@),
{
    match String::from_utf8(bytes) {
        Ok(s) => Some(s),
        Err(_) => None,
    }
}

/// After a tag byte, an `n`-byte payload window lines up with the subrange
/// the specification parsers read, and its big-endian value fits 64 bits.
proof fn lemma_unsigned_window(s: Seq<u8>, n: int)
    requires
        1 <= n <= 8,
    ensures
        s.len() >= 1 + n ==> s.skip(1).take(n) == s.subrange(1, 1 + n) && s.skip(1).skip(n)
            == s.skip(1 + n) && be_bytes(s.subrange(1, 1 + n)) < pow256(n as nat) && be_bytes(
            s.subrange(1, 1 + n),
        ) < 0x1_0000_0000_0000_0000,
{
    lemma_window(s, 1, n);
    if s.len() >= 1 + n {
        lemma_be_bytes_u64(s.subrange(1, 1 + n));
        lemma_be_bytes_bound(s.subrange(1, 1 + n));
    }
}

/// A decoder pulling MessagePack values out of a byte source.
pub struct Decoder {
    rd: ByteSource,
    next_byte: Option<u8>,
}

impl View for Decoder {
    type V = Seq<u8>;

    /// The bytes not yet decoded: the lookahead byte, if one is buffered,
    /// followed by what the source still holds.
    closed spec fn view(&self) -> Seq<u8> {
        match self.next_byte {
            Some(b) => seq![b] + self.rd@,
            None => self.rd@,
        }
    }
}

impl Decoder {
    /// The decoder is as well-formed as its source.
    pub closed spec fn wf(&self) -> bool {
        self.rd.wf()
    }

    /// Creates a new MessagePack decoder for decoding from the specified
    /// byte source.
    pub fn new(rd: ByteSource) -> (r: Decoder)
        requires
            rd.wf(),
        ensures
            r.wf(),
            r@ == rd@,
    {
        Decoder { rd, next_byte: None }
    }

    /// Returns the next byte without consuming it, buffering it as
    /// lookahead; fails when the source is exhausted.
    pub fn peek_byte(&mut self) -> (r: Result<u8, DecodeError>)
        requires
            old(self).wf(),
        ensures
            final(self).wf(),
            final(self)@ == old(self)@,
            old(self)@.len() == 0 ==> r == Err::<u8, DecodeError>(
                DecodeError::UnexpectedEndOfStream,
            ),
            old(self)@.len() > 0 ==> r == Ok::<u8, DecodeError>(old(self)@[0]),
    {
        match self.next_byte {
            Some(b) => Ok(b),
            None => match self.rd.read_byte() {
                Some(b) => {
                    self.next_byte = Some(b);
                    proof {
                        assert(self@ =~= old(self)@);
                    }
                    Ok(b)
                },
                None => Err(DecodeError::UnexpectedEndOfStream),
            },
        }
    }

    /// Returns and consumes the next byte, preferring the lookahead buffer;
    /// fails when the source is exhausted.
    pub fn read_byte(&mut self) -> (r: Result<u8, DecodeError>)
        requires
            old(self).wf(),
        ensures
            final(self).wf(),
            old(self)@.len() == 0 ==> r == Err::<u8, DecodeError>(
                DecodeError::UnexpectedEndOfStream,
            ) && final(self)@ == old(self)@,
            old(self)@.len() > 0 ==> r == Ok::<u8, DecodeError>(old(self)@[0]) && final(self)@
                == old(self)@.skip(1),
    {
        match self.next_byte {
            Some(b) => {
                self.next_byte = None;
                proof {
                    assert(self@ =~= old(self)@.skip(1));
                }
                Ok(b)
            },
            None => match self.rd.read_byte() {
                Some(b) => Ok(b),
                None => Err(DecodeError::UnexpectedEndOfStream),
            },
        }
    }

    /// Reads exactly `len` raw bytes; fails, consuming nothing, when fewer
    /// remain.
    pub fn read_raw(&mut self, len: usize) -> (r: Result<Vec<u8>, DecodeError>)
        requires
            old(self).wf(),
        ensures
            final(self).wf(),
            old(self)@.len() < len ==> r == Err::<Vec<u8>, DecodeError>(
                DecodeError::UnexpectedEndOfStream,
            ) && final(self)@ == old(self)@,
            old(self)@.len() >= len ==> (r matches Ok(v) && v@ == old(self)@.take(len as int)
                && final(self)@ == old(self)@.skip(len as int)),
    {
        match self.next_byte {
            None => match self.rd.read_exact(len) {
                Some(v) => Ok(v),
                None => Err(DecodeError::UnexpectedEndOfStream),
            },
            Some(b) => {
                if len == 0 {
                    let v: Vec<u8> = Vec::new();
                    proof {
                        assert(v@ =~= old(self)@.take(0));
                        assert(self@ =~= old(self)@.skip(0));
                    }
                    Ok(v)
                } else {
                    match self.rd.read_exact(len - 1) {
                        Some(mut rest) => {
                            self.next_byte = None;
                            let mut v: Vec<u8> = Vec::new();
                            v.push(b);
                            v.append(&mut rest);
                            proof {
                                assert(v@ =~= old(self)@.take(len as int));
                                assert(self@ =~= old(self)@.skip(len as int));
                            }
                            Ok(v)
                        },
                        None => Err(DecodeError::UnexpectedEndOfStream),
                    }
                }
            },
        }
    }

    /// Reads the next `n` bytes as a big-endian unsigned integer; fails,
    /// consuming nothing, when fewer remain.
    fn read_be(&mut self, n: usize) -> (r: Result<u64, DecodeError>)
        requires
            old(self).wf(),
            n <= 8,
        ensures
            final(self).wf(),
            old(self)@.len() < n ==> r == Err::<u64, DecodeError>(
                DecodeError::UnexpectedEndOfStream,
            ) && final(self)@ == old(self)@,
            old(self)@.len() >= n ==> (r matches Ok(v) && v as nat == be_bytes(
                old(self)@.take(n as int),
            ) && final(self)@ == old(self)@.skip(n as int)),
    {
        let bytes = match self.read_raw(n) {
            Ok(b) => b,
            Err(e) => {
                return Err(e);
            },
        };
        let mut v: u64 = 0;
        let mut i: usize = 0;
        proof {
            lemma_pow256_values();
        }
        while i < n
            invariant
                i <= n <= 8,
                bytes@.len() == n,
                v as nat == be_bytes(bytes@.take(i as int)),
                (v as nat) < pow256(i as nat),
            decreases n - i,
        {
            let b = bytes[i];
            proof {
                crate::format::lemma_pow256_increases(i as nat, 7);
                lemma_pow256_values();
                assert(pow256((i + 1) as nat) == 256 * pow256(i as nat));
                assert((v as nat) * 256 + 256 <= pow256((i + 1) as nat));
                crate::format::lemma_be_bytes_push(bytes@.take(i as int), b);
                assert(bytes@.take(i as int).push(b) =~= bytes@.take(i as int + 1));
            }
            v = v * 256 + (b as u64);
            i = i + 1;
        }
        proof {
            assert(bytes@.take(n as int) =~= bytes@);
        }
        Ok(v)
    }

    /// Reads one unsigned integer: a positive fixed integer, or an
    /// 8/16/32/64-bit extended one; any other tag is an invalid-tag error.
    pub fn read_unsigned(&mut self) -> (r: Result<u64, DecodeError>)
        requires
            old(self).wf(),
        ensures
            final(self).wf(),
            match parse_unsigned(old(self)@) {
                Parsed::Found(v, used) => r == Ok::<u64, DecodeError>(v) && final(self)@
                    == old(self)@.skip(used),
                Parsed::Eof => r == Err::<u64, DecodeError>(DecodeError::UnexpectedEndOfStream),
                Parsed::BadTag(t) => r == Err::<u64, DecodeError>(
                    DecodeError::InvalidTag { expected: TagKind::UnsignedInteger, found: t },
                ) && final(self)@ == old(self)@.skip(1),
            },
    {
        let c = match self.read_byte() {
            Ok(c) => c,
            Err(e) => {
                return Err(e);
            },
        };
        if c <= 0x7f {
            Ok(c as u64)
        } else if c == 0xcc {
            proof {
                lemma_unsigned_window(old(self)@, 1);
            }
            self.read_be(1)
        } else if c == 0xcd {
            proof {
                lemma_unsigned_window(old(self)@, 2);
            }
            self.read_be(2)
        } else if c == 0xce {
            proof {
                lemma_unsigned_window(old(self)@, 4);
            }
            self.read_be(4)
        } else if c == 0xcf {
            proof {
                lemma_unsigned_window(old(self)@, 8);
            }
            self.read_be(8)
        } else {
            Err(DecodeError::InvalidTag { expected: TagKind::UnsignedInteger, found: c })
        }
    }

    /// Reads one signed integer: a negative fixed integer, or an
    /// 8/16/32/64-bit extended one; any other tag is an invalid-tag error.
    pub fn read_signed(&mut self) -> (r: Result<i64, DecodeError>)
        requires
            old(self).wf(),
        ensures
            final(self).wf(),
            match parse_signed(old(self)@) {
                Parsed::Found(v, used) => (r matches Ok(x) && x as int == v) && final(self)@
                    == old(self)@.skip(used),
                Parsed::Eof => r == Err::<i64, DecodeError>(DecodeError::UnexpectedEndOfStream),
                Parsed::BadTag(t) => r == Err::<i64, DecodeError>(
                    DecodeError::InvalidTag { expected: TagKind::SignedInteger, found: t },
                ) && final(self)@ == old(self)@.skip(1),
            },
    {
        let c = match self.read_byte() {
            Ok(c) => c,
            Err(e) => {
                return Err(e);
            },
        };
        proof {
            lemma_pow256_values();
        }
        if c >= 0xe0 {
            Ok((c as i64) - 0x100)
        } else if c == 0xd0 {
            proof {
                lemma_unsigned_window(old(self)@, 1);
            }
            match self.read_be(1) {
                Ok(u) => Ok(
                    if u < 0x80 {
                        u as i64
                    } else {
                        (u as i64) - 0x100
                    },
                ),
                Err(e) => Err(e),
            }
        } else if c == 0xd1 {
            proof {
                lemma_unsigned_window(old(self)@, 2);
            }
            match self.read_be(2) {
                Ok(u) => Ok(
                    if u < 0x8000 {
                        u as i64
                    } else {
                        (u as i64) - 0x1_0000
                    },
                ),
                Err(e) => Err(e),
            }
        } else if c == 0xd2 {
            proof {
                lemma_unsigned_window(old(self)@, 4);
            }
            match self.read_be(4) {
                Ok(u) => Ok(
                    if u < 0x8000_0000 {
                        u as i64
                    } else {
                        (u as i64) - 0x1_0000_0000
                    },
                ),
                Err(e) => Err(e),
            }
        } else if c == 0xd3 {
            proof {
                lemma_unsigned_window(old(self)@, 8);
            }
            match self.read_be(8) {
                Ok(u) => Ok(
                    if u < 0x8000_0000_0000_0000 {
                        u as i64
                    } else {
                        ((u - 0x8000_0000_0000_0000) as i64) - 0x7fff_ffff_ffff_ffff - 1
                    },
                ),
                Err(e) => Err(e),
            }
        } else {
            Err(DecodeError::InvalidTag { expected: TagKind::SignedInteger, found: c })
        }
    }

    /// Decodes one unsigned integer, zero-extended to 64 bits.
    pub fn decode_u64(&mut self) -> (r: Result<u64, DecodeError>)
        requires
            old(self).wf(),
        ensures
            final(self).wf(),
            match parse_unsigned(old(self)@) {
                Parsed::Found(v, used) => r == Ok::<u64, DecodeError>(v) && final(self)@
                    == old(self)@.skip(used),
                Parsed::Eof => r == Err::<u64, DecodeError>(DecodeError::UnexpectedEndOfStream),
                Parsed::BadTag(t) => r == Err::<u64, DecodeError>(
                    DecodeError::InvalidTag { expected: TagKind::UnsignedInteger, found: t },
                ) && final(self)@ == old(self)@.skip(1),
            },
    {
        self.read_unsigned()
    }

    /// Decodes one unsigned integer and narrows it to 32 bits; a value that
    /// does not fit is a numeric-overflow error.
    pub fn decode_u32(&mut self) -> (r: Result<u32, DecodeError>)
        requires
            old(self).wf(),
        ensures
            final(self).wf(),
            match parse_unsigned(old(self)@) {
                Parsed::Found(v, used) => final(self)@ == old(self)@.skip(used) && (
                if v <= 0xffff_ffff {
                    r == Ok::<u32, DecodeError>(v as u32)
                } else {
                    r == Err::<u32, DecodeError>(DecodeError::NumericOverflow)
                }),
                Parsed::Eof => r == Err::<u32, DecodeError>(DecodeError::UnexpectedEndOfStream),
                Parsed::BadTag(t) => r == Err::<u32, DecodeError>(
                    DecodeError::InvalidTag { expected: TagKind::UnsignedInteger, found: t },
                ) && final(self)@ == old(self)@.skip(1),
            },
    {
        match self.read_unsigned() {
            Ok(v) => if v <= 0xffff_ffff {
                Ok(v as u32)
            } else {
                Err(DecodeError::NumericOverflow)
            },
            Err(e) => Err(e),
        }
    }

    /// Decodes one unsigned integer and narrows it to 16 bits; a value that
    /// does not fit is a numeric-overflow error.
    pub fn decode_u16(&mut self) -> (r: Result<u16, DecodeError>)
        requires
            old(self).wf(),
        ensures
            final(self).wf(),
            match parse_unsigned(old(self)@) {
                Parsed::Found(v, used) => final(self)@ == old(self)@.skip(used) && (
                if v <= 0xffff {
                    r == Ok::<u16, DecodeError>(v as u16)
                } else {
                    r == Err::<u16, DecodeError>(DecodeError::NumericOverflow)
                }),
                Parsed::Eof => r == Err::<u16, DecodeError>(DecodeError::UnexpectedEndOfStream),
                Parsed::BadTag(t) => r == Err::<u16, DecodeError>(
                    DecodeError::InvalidTag { expected: TagKind::UnsignedInteger, found: t },
                ) && final(self)@ == old(self)@.skip(1),
            },
    {
        match self.read_unsigned() {
            Ok(v) => if v <= 0xffff {
                Ok(v as u16)
            } else {
                Err(DecodeError::NumericOverflow)
            },
            Err(e) => Err(e),
        }
    }

    /// Decodes one unsigned integer and narrows it to 8 bits; a value that
    /// does not fit is a numeric-overflow error.
    pub fn decode_u8(&mut self) -> (r: Result<u8, DecodeError>)
        requires
            old(self).wf(),
        ensures
            final(self).wf(),
            match parse_unsigned(old(self)@) {
                Parsed::Found(v, used) => final(self)@ == old(self)@.skip(used) && (
                if v <= 0xff {
                    r == Ok::<u8, DecodeError>(v as u8)
                } else {
                    r == Err::<u8, DecodeError>(DecodeError::NumericOverflow)
                }),
                Parsed::Eof => r == Err::<u8, DecodeError>(DecodeError::UnexpectedEndOfStream),
                Parsed::BadTag(t) => r == Err::<u8, DecodeError>(
                    DecodeError::InvalidTag { expected: TagKind::UnsignedInteger, found: t },
                ) && final(self)@ == old(self)@.skip(1),
            },
    {
        match self.read_unsigned() {
            Ok(v) => if v <= 0xff {
                Ok(v as u8)
            } else {
                Err(DecodeError::NumericOverflow)
            },
            Err(e) => Err(e),
        }
    }

    /// Decodes one signed integer, sign-extended to 64 bits.
    pub fn decode_i64(&mut self) -> (r: Result<i64, DecodeError>)
        requires
            old(self).wf(),
        ensures
            final(self).wf(),
            match parse_signed(old(self)@) {
                Parsed::Found(v, used) => (r matches Ok(x) && x as int == v) && final(self)@
                    == old(self)@.skip(used),
                Parsed::Eof => r == Err::<i64, DecodeError>(DecodeError::UnexpectedEndOfStream),
                Parsed::BadTag(t) => r == Err::<i64, DecodeError>(
                    DecodeError::InvalidTag { expected: TagKind::SignedInteger, found: t },
                ) && final(self)@ == old(self)@.skip(1),
            },
    {
        self.read_signed()
    }

    /// Decodes one signed integer and narrows it to 32 bits; a value that
    /// does not fit is a numeric-overflow error.
    pub fn decode_i32(&mut self) -> (r: Result<i32, DecodeError>)
        requires
            old(self).wf(),
        ensures
            final(self).wf(),
            match parse_signed(old(self)@) {
                Parsed::Found(v, used) => final(self)@ == old(self)@.skip(used) && (
                if -0x8000_0000 <= v && v <= 0x7fff_ffff {
                    r == Ok::<i32, DecodeError>(v as i32)
                } else {
                    r == Err::<i32, DecodeError>(DecodeError::NumericOverflow)
                }),
                Parsed::Eof => r == Err::<i32, DecodeError>(DecodeError::UnexpectedEndOfStream),
                Parsed::BadTag(t) => r == Err::<i32, DecodeError>(
                    DecodeError::InvalidTag { expected: TagKind::SignedInteger, found: t },
                ) && final(self)@ == old(self)@.skip(1),
            },
    {
        match self.read_signed() {
            Ok(x) => if -0x8000_0000 <= x && x <= 0x7fff_ffff {
                Ok(x as i32)
            } else {
                Err(DecodeError::NumericOverflow)
            },
            Err(e) => Err(e),
        }
    }

    /// Decodes one signed integer and narrows it to 16 bits; a value that
    /// does not fit is a numeric-overflow error.
    pub fn decode_i16(&mut self) -> (r: Result<i16, DecodeError>)
        requires
            old(self).wf(),
        ensures
            final(self).wf(),
            match parse_signed(old(self)@) {
                Parsed::Found(v, used) => final(self)@ == old(self)@.skip(used) && (
                if -0x8000 <= v && v <= 0x7fff {
                    r == Ok::<i16, DecodeError>(v as i16)
                } else {
                    r == Err::<i16, DecodeError>(DecodeError::NumericOverflow)
                }),
                Parsed::Eof => r == Err::<i16, DecodeError>(DecodeError::UnexpectedEndOfStream),
                Parsed::BadTag(t) => r == Err::<i16, DecodeError>(
                    DecodeError::InvalidTag { expected: TagKind::SignedInteger, found: t },
                ) && final(self)@ == old(self)@.skip(1),
            },
    {
        match self.read_signed() {
            Ok(x) => if -0x8000 <= x && x <= 0x7fff {
                Ok(x as i16)
            } else {
                Err(DecodeError::NumericOverflow)
            },
            Err(e) => Err(e),
        }
    }

    /// Decodes one signed integer and narrows it to 8 bits; a value that
    /// does not fit is a numeric-overflow error.
    pub fn decode_i8(&mut self) -> (r: Result<i8, DecodeError>)
        requires
            old(self).wf(),
        ensures
            final(self).wf(),
            match parse_signed(old(self)@) {
                Parsed::Found(v, used) => final(self)@ == old(self)@.skip(used) && (
                if -0x80 <= v && v <= 0x7f {
                    r == Ok::<i8, DecodeError>(v as i8)
                } else {
                    r == Err::<i8, DecodeError>(DecodeError::NumericOverflow)
                }),
                Parsed::Eof => r == Err::<i8, DecodeError>(DecodeError::UnexpectedEndOfStream),
                Parsed::BadTag(t) => r == Err::<i8, DecodeError>(
                    DecodeError::InvalidTag { expected: TagKind::SignedInteger, found: t },
                ) && final(self)@ == old(self)@.skip(1),
            },
    {
        match self.read_signed() {
            Ok(x) => if -0x80 <= x && x <= 0x7f {
                Ok(x as i8)
            } else {
                Err(DecodeError::NumericOverflow)
            },
            Err(e) => Err(e),
        }
    }

    /// Decodes the nil value: exactly the byte `0xc0`.
    pub fn decode_nil(&mut self) -> (r: Result<(), DecodeError>)
        requires
            old(self).wf(),
        ensures
            final(self).wf(),
            match parse_nil(old(self)@) {
                Parsed::Found(_, used) => r == Ok::<(), DecodeError>(()) && final(self)@
                    == old(self)@.skip(used),
                Parsed::Eof => r == Err::<(), DecodeError>(DecodeError::UnexpectedEndOfStream)
                    && final(self)@ == old(self)@,
                Parsed::BadTag(t) => r == Err::<(), DecodeError>(
                    DecodeError::InvalidTag { expected: TagKind::Nil, found: t },
                ) && final(self)@ == old(self)@.skip(1),
            },
    {
        match self.read_byte() {
            Ok(c) => if c == 0xc0 {
                Ok(())
            } else {
                Err(DecodeError::InvalidTag { expected: TagKind::Nil, found: c })
            },
            Err(e) => Err(e),
        }
    }

    /// Decodes a boolean: `0xc2` is false, `0xc3` is true.
    pub fn decode_bool(&mut self) -> (r: Result<bool, DecodeError>)
        requires
            old(self).wf(),
        ensures
            final(self).wf(),
            match parse_bool(old(self)@) {
                Parsed::Found(v, used) => r == Ok::<bool, DecodeError>(v) && final(self)@
                    == old(self)@.skip(used),
                Parsed::Eof => r == Err::<bool, DecodeError>(DecodeError::UnexpectedEndOfStream)
                    && final(self)@ == old(self)@,
                Parsed::BadTag(t) => r == Err::<bool, DecodeError>(
                    DecodeError::InvalidTag { expected: TagKind::Boolean, found: t },
                ) && final(self)@ == old(self)@.skip(1),
            },
    {
        match self.read_byte() {
            Ok(c) => if c == 0xc2 {
                Ok(false)
            } else if c == 0xc3 {
                Ok(true)
            } else {
                Err(DecodeError::InvalidTag { expected: TagKind::Boolean, found: c })
            },
            Err(e) => Err(e),
        }
    }

    /// Decodes a 32-bit float to its raw big-endian IEEE-754 bit pattern.
    /// Floating point stays out of this core: a caller that wants the number
    /// itself reassembles it from the bits.
    pub fn decode_f32_bits(&mut self) -> (r: Result<u32, DecodeError>)
        requires
            old(self).wf(),
        ensures
            final(self).wf(),
            match parse_float32_bits(old(self)@) {
                Parsed::Found(bits, used) => r == Ok::<u32, DecodeError>(bits) && final(self)@
                    == old(self)@.skip(used),
                Parsed::Eof => r == Err::<u32, DecodeError>(DecodeError::UnexpectedEndOfStream),
                Parsed::BadTag(t) => r == Err::<u32, DecodeError>(
                    DecodeError::InvalidTag { expected: TagKind::Float32, found: t },
                ) && final(self)@ == old(self)@.skip(1),
            },
    {
        let c = match self.read_byte() {
            Ok(c) => c,
            Err(e) => {
                return Err(e);
            },
        };
        if c == 0xca {
            proof {
                lemma_unsigned_window(old(self)@, 4);
            }
            match self.read_be(4) {
                Ok(u) => Ok(u as u32),
                Err(e) => Err(e),
            }
        } else {
            Err(DecodeError::InvalidTag { expected: TagKind::Float32, found: c })
        }
    }

    /// Decodes a 64-bit float to its raw big-endian IEEE-754 bit pattern.
    /// Floating point stays out of this core: a caller that wants the number
    /// itself reassembles it from the bits.
    pub fn decode_f64_bits(&mut self) -> (r: Result<u64, DecodeError>)
        requires
            old(self).wf(),
        ensures
            final(self).wf(),
            match parse_float64_bits(old(self)@) {
                Parsed::Found(bits, used) => r == Ok::<u64, DecodeError>(bits) && final(self)@
                    == old(self)@.skip(used),
                Parsed::Eof => r == Err::<u64, DecodeError>(DecodeError::UnexpectedEndOfStream),
                Parsed::BadTag(t) => r == Err::<u64, DecodeError>(
                    DecodeError::InvalidTag { expected: TagKind::Float64, found: t },
                ) && final(self)@ == old(self)@.skip(1),
            },
    {
        let c = match self.read_byte() {
            Ok(c) => c,
            Err(e) => {
                return Err(e);
            },
        };
        if c == 0xcb {
            proof {
                lemma_unsigned_window(old(self)@, 8);
            }
            match self.read_be(8) {
                Ok(u) => Ok(u),
                Err(e) => Err(e),
            }
        } else {
            Err(DecodeError::InvalidTag { expected: TagKind::Float64, found: c })
        }
    }

    /// Reads an array header and returns the declared element count.
    pub fn read_sequence_length(&mut self) -> (r: Result<usize, DecodeError>)
        requires
            old(self).wf(),
        ensures
            final(self).wf(),
            match parse_sequence_length(old(self)@) {
                Parsed::Found(n, used) => (r matches Ok(l) && l as int == n) && final(self)@
                    == old(self)@.skip(used),
                Parsed::Eof => r == Err::<usize, DecodeError>(DecodeError::UnexpectedEndOfStream),
                Parsed::BadTag(t) => r == Err::<usize, DecodeError>(
                    DecodeError::InvalidTag { expected: TagKind::SequenceLength, found: t },
                ) && final(self)@ == old(self)@.skip(1),
            },
    {
        let c = match self.read_byte() {
            Ok(c) => c,
            Err(e) => {
                return Err(e);
            },
        };
        if 0x90 <= c && c <= 0x9f {
            Ok((c - 0x90) as usize)
        } else if c == 0xdc {
            proof {
                lemma_unsigned_window(old(self)@, 2);
                lemma_pow256_values();
            }
            match self.read_be(2) {
                Ok(u) => Ok(u as usize),
                Err(e) => Err(e),
            }
        } else if c == 0xdd {
            proof {
                lemma_unsigned_window(old(self)@, 4);
                lemma_pow256_values();
            }
            match self.read_be(4) {
                Ok(u) => Ok(u as usize),
                Err(e) => Err(e),
            }
        } else {
            Err(DecodeError::InvalidTag { expected: TagKind::SequenceLength, found: c })
        }
    }

    /// Reads a map header and returns the declared entry count.
    pub fn read_map_length(&mut self) -> (r: Result<usize, DecodeError>)
        requires
            old(self).wf(),
        ensures
            final(self).wf(),
            match parse_map_length(old(self)@) {
                Parsed::Found(n, used) => (r matches Ok(l) && l as int == n) && final(self)@
                    == old(self)@.skip(used),
                Parsed::Eof => r == Err::<usize, DecodeError>(DecodeError::UnexpectedEndOfStream),
                Parsed::BadTag(t) => r == Err::<usize, DecodeError>(
                    DecodeError::InvalidTag { expected: TagKind::MapLength, found: t },
                ) && final(self)@ == old(self)@.skip(1),
            },
    {
        let c = match self.read_byte() {
            Ok(c) => c,
            Err(e) => {
                return Err(e);
            },
        };
        if 0x80 <= c && c <= 0x8f {
            Ok((c - 0x80) as usize)
        } else if c == 0xde {
            proof {
                lemma_unsigned_window(old(self)@, 2);
                lemma_pow256_values();
            }
            match self.read_be(2) {
                Ok(u) => Ok(u as usize),
                Err(e) => Err(e),
            }
        } else if c == 0xdf {
            proof {
                lemma_unsigned_window(old(self)@, 4);
                lemma_pow256_values();
            }
            match self.read_be(4) {
                Ok(u) => Ok(u as usize),
                Err(e) => Err(e),
            }
        } else {
            Err(DecodeError::InvalidTag { expected: TagKind::MapLength, found: c })
        }
    }

    /// Tests whether an optional value is present. The next byte is peeked,
    /// never consumed: `false` (absent) when it is the nil tag, which a
    /// following `decode_nil` then consumes; `true` (present) otherwise,
    /// leaving the byte for the real value's decode.
    pub fn decode_option(&mut self) -> (r: Result<bool, DecodeError>)
        requires
            old(self).wf(),
        ensures
            final(self).wf(),
            final(self)@ == old(self)@,
            old(self)@.len() == 0 ==> r == Err::<bool, DecodeError>(
                DecodeError::UnexpectedEndOfStream,
            ),
            old(self)@.len() > 0 ==> r == Ok::<bool, DecodeError>(old(self)@[0] != 0xc0),
    {
        match self.peek_byte() {
            Ok(b) => Ok(b != 0xc0),
            Err(e) => Err(e),
        }
    }

    /// Begins a sequence: reads the array header and returns the element
    /// count. The caller then decodes exactly that many elements, in order.
    pub fn decode_sequence(&mut self) -> (r: Result<usize, DecodeError>)
        requires
            old(self).wf(),
        ensures
            final(self).wf(),
            match parse_sequence_length(old(self)@) {
                Parsed::Found(n, used) => (r matches Ok(l) && l as int == n) && final(self)@
                    == old(self)@.skip(used),
                Parsed::Eof => r == Err::<usize, DecodeError>(DecodeError::UnexpectedEndOfStream),
                Parsed::BadTag(t) => r == Err::<usize, DecodeError>(
                    DecodeError::InvalidTag { expected: TagKind::SequenceLength, found: t },
                ) && final(self)@ == old(self)@.skip(1),
            },
    {
        self.read_sequence_length()
    }

    /// Positions for one sequence element. The index is informational only:
    /// the stream moves by decode order alone, so this consumes nothing.
    pub fn decode_sequence_element(&mut self, _idx: usize)
        ensures
            *final(self) == *old(self),
    {
    }

    /// Begins a map: reads the map header and returns the entry count. The
    /// caller then decodes a key and a value for exactly that many entries,
    /// in order.
    pub fn decode_map(&mut self) -> (r: Result<usize, DecodeError>)
        requires
            old(self).wf(),
        ensures
            final(self).wf(),
            match parse_map_length(old(self)@) {
                Parsed::Found(n, used) => (r matches Ok(l) && l as int == n) && final(self)@
                    == old(self)@.skip(used),
                Parsed::Eof => r == Err::<usize, DecodeError>(DecodeError::UnexpectedEndOfStream),
                Parsed::BadTag(t) => r == Err::<usize, DecodeError>(
                    DecodeError::InvalidTag { expected: TagKind::MapLength, found: t },
                ) && final(self)@ == old(self)@.skip(1),
            },
    {
        self.read_map_length()
    }

    /// Positions for one map key; informational only, consumes nothing.
    pub fn decode_map_key(&mut self, _idx: usize)
        ensures
            *final(self) == *old(self),
    {
    }

    /// Positions for one map value; informational only, consumes nothing.
    pub fn decode_map_value(&mut self, _idx: usize)
        ensures
            *final(self) == *old(self),
    {
    }

    /// Begins a struct of `fields` fields. Structs are wire-encoded as maps
    /// of exactly that arity: the map header's count must equal `fields`,
    /// else the decode fails with an arity mismatch. The caller then decodes
    /// the fields in declared order.
    pub fn decode_struct(&mut self, _name: &str, fields: usize) -> (r: Result<(), DecodeError>)
        requires
            old(self).wf(),
        ensures
            final(self).wf(),
            match parse_map_length(old(self)@) {
                Parsed::Found(n, used) => final(self)@ == old(self)@.skip(used) && (
                if n == fields as int {
                    r == Ok::<(), DecodeError>(())
                } else {
                    r matches Err(e) && e == (DecodeError::ArityMismatch {
                        fields,
                        entries: n as usize,
                    })
                }),
                Parsed::Eof => r == Err::<(), DecodeError>(DecodeError::UnexpectedEndOfStream),
                Parsed::BadTag(t) => r == Err::<(), DecodeError>(
                    DecodeError::InvalidTag { expected: TagKind::MapLength, found: t },
                ) && final(self)@ == old(self)@.skip(1),
            },
    {
        match self.read_map_length() {
            Ok(l) => if l == fields {
                Ok(())
            } else {
                Err(DecodeError::ArityMismatch { fields, entries: l })
            },
            Err(e) => Err(e),
        }
    }

    /// Positions for one struct field; the name and index are informational
    /// only, so this consumes nothing.
    pub fn decode_struct_field(&mut self, _name: &str, _idx: usize)
        ensures
            *final(self) == *old(self),
    {
    }

    /// Begins a tuple. Tuples are wire-encoded as arrays: this reads the
    /// array header and returns the arity.
    pub fn decode_tuple(&mut self) -> (r: Result<usize, DecodeError>)
        requires
            old(self).wf(),
        ensures
            final(self).wf(),
            match parse_sequence_length(old(self)@) {
                Parsed::Found(n, used) => (r matches Ok(l) && l as int == n) && final(self)@
                    == old(self)@.skip(used),
                Parsed::Eof => r == Err::<usize, DecodeError>(DecodeError::UnexpectedEndOfStream),
                Parsed::BadTag(t) => r == Err::<usize, DecodeError>(
                    DecodeError::InvalidTag { expected: TagKind::SequenceLength, found: t },
                ) && final(self)@ == old(self)@.skip(1),
            },
    {
        self.decode_sequence()
    }

    /// Positions for one tuple element; informational only, consumes
    /// nothing.
    pub fn decode_tuple_arg(&mut self, _idx: usize)
        ensures
            *final(self) == *old(self),
    {
    }

    /// Begins a tuple struct: wire-encoded as an array, like a tuple.
    pub fn decode_tuple_struct(&mut self, _name: &str) -> (r: Result<usize, DecodeError>)
        requires
            old(self).wf(),
        ensures
            final(self).wf(),
            match parse_sequence_length(old(self)@) {
                Parsed::Found(n, used) => (r matches Ok(l) && l as int == n) && final(self)@
                    == old(self)@.skip(used),
                Parsed::Eof => r == Err::<usize, DecodeError>(DecodeError::UnexpectedEndOfStream),
                Parsed::BadTag(t) => r == Err::<usize, DecodeError>(
                    DecodeError::InvalidTag { expected: TagKind::SequenceLength, found: t },
                ) && final(self)@ == old(self)@.skip(1),
            },
    {
        self.decode_tuple()
    }

    /// Positions for one tuple-struct element; informational only, consumes
    /// nothing.
    pub fn decode_tuple_struct_arg(&mut self, _idx: usize)
        ensures
            *final(self) == *old(self),
    {
    }

    /// Enum decoding is not part of this core: a wire convention for tagged
    /// unions is deliberately left open, so invoking it always fails.
    pub fn decode_enum(&mut self, _name: &str) -> (r: Result<(), DecodeError>)
        ensures
            *final(self) == *old(self),
            r == Err::<(), DecodeError>(DecodeError::UnsupportedOperation),
    {
        Err(DecodeError::UnsupportedOperation)
    }

    /// Enum decoding is not part of this core; always fails.
    pub fn decode_enum_variant(&mut self) -> (r: Result<(), DecodeError>)
        ensures
            *final(self) == *old(self),
            r == Err::<(), DecodeError>(DecodeError::UnsupportedOperation),
    {
        Err(DecodeError::UnsupportedOperation)
    }

    /// Enum decoding is not part of this core; always fails.
    pub fn decode_enum_variant_arg(&mut self, _idx: usize) -> (r: Result<(), DecodeError>)
        ensures
            *final(self) == *old(self),
            r == Err::<(), DecodeError>(DecodeError::UnsupportedOperation),
    {
        Err(DecodeError::UnsupportedOperation)
    }

    /// Enum decoding is not part of this core; always fails.
    pub fn decode_enum_struct_variant(&mut self) -> (r: Result<(), DecodeError>)
        ensures
            *final(self) == *old(self),
            r == Err::<(), DecodeError>(DecodeError::UnsupportedOperation),
    {
        self.decode_enum_variant()
    }

    /// Enum decoding is not part of this core; always fails.
    pub fn decode_enum_struct_variant_field(&mut self, _name: &str, _idx: usize) -> (r: Result<
        (),
        DecodeError,
    >)
        ensures
            *final(self) == *old(self),
            r == Err::<(), DecodeError>(DecodeError::UnsupportedOperation),
    {
        self.decode_enum_variant_arg(_idx)
    }

    /// Reads exactly `len` bytes and validates them as well-formed text.
    pub fn read_string(&mut self, len: usize) -> (r: Result<String, DecodeError>)
        requires
            old(self).wf(),
        ensures
            final(self).wf(),
            old(self)@.len() < len ==> r == Err::<String, DecodeError>(
                DecodeError::UnexpectedEndOfStream,
            ) && final(self)@ == old(self)@,
            old(self)@.len() >= len ==> final(self)@ == old(self)@.skip(len as int) && (
            if valid_utf8(old(self)@.take(len as int)) {
                r matches Ok(s) && s@ == decode_utf8(old(self)@.take(len as int))
            } else {
                r == Err::<String, DecodeError>(DecodeError::InvalidEncoding)
            }),
    {
        let bytes = match self.read_raw(len) {
            Ok(b) => b,
            Err(e) => {
                return Err(e);
            },
        };
        match bytes_to_string(bytes) {
            Some(s) => Ok(s),
            None => Err(DecodeError::InvalidEncoding),
        }
    }

    /// Reads one string's tag, length and raw bytes, undecoded.
    fn read_text_bytes(&mut self) -> (r: Result<Vec<u8>, DecodeError>)
        requires
            old(self).wf(),
        ensures
            final(self).wf(),
            match parse_string(old(self)@) {
                Parsed::Found(bs, used) => (r matches Ok(v) && v@ == bs) && final(self)@
                    == old(self)@.skip(used),
                Parsed::Eof => r == Err::<Vec<u8>, DecodeError>(
                    DecodeError::UnexpectedEndOfStream,
                ),
                Parsed::BadTag(t) => r == Err::<Vec<u8>, DecodeError>(
                    DecodeError::InvalidTag { expected: TagKind::Text, found: t },
                ) && final(self)@ == old(self)@.skip(1),
            },
    {
        let c = match self.read_byte() {
            Ok(c) => c,
            Err(e) => {
                return Err(e);
            },
        };
        if 0xa0 <= c && c <= 0xbf {
            let n = (c - 0xa0) as usize;
            proof {
                lemma_window(old(self)@, 1, n as int);
            }
            self.read_raw(n)
        } else if c == 0xda {
            proof {
                lemma_unsigned_window(old(self)@, 2);
                lemma_pow256_values();
            }
            let l = match self.read_be(2) {
                Ok(l) => l,
                Err(e) => {
                    return Err(e);
                },
            };
            proof {
                lemma_window(old(self)@, 3, l as int);
            }
            self.read_raw(l as usize)
        } else if c == 0xdb {
            proof {
                lemma_unsigned_window(old(self)@, 4);
                lemma_pow256_values();
            }
            let l = match self.read_be(4) {
                Ok(l) => l,
                Err(e) => {
                    return Err(e);
                },
            };
            proof {
                lemma_window(old(self)@, 5, l as int);
            }
            self.read_raw(l as usize)
        } else {
            Err(DecodeError::InvalidTag { expected: TagKind::Text, found: c })
        }
    }

    /// Decodes one string: a fixed or 16/32-bit-length string whose bytes
    /// must be well-formed text.
    pub fn decode_string(&mut self) -> (r: Result<String, DecodeError>)
        requires
            old(self).wf(),
        ensures
            final(self).wf(),
            match parse_string(old(self)@) {
                Parsed::Found(bs, used) => final(self)@ == old(self)@.skip(used) && (
                if valid_utf8(bs) {
                    r matches Ok(s) && s@ == decode_utf8(bs)
                } else {
                    r == Err::<String, DecodeError>(DecodeError::InvalidEncoding)
                }),
                Parsed::Eof => r == Err::<String, DecodeError>(
                    DecodeError::UnexpectedEndOfStream,
                ),
                Parsed::BadTag(t) => r == Err::<String, DecodeError>(
                    DecodeError::InvalidTag { expected: TagKind::Text, found: t },
                ) && final(self)@ == old(self)@.skip(1),
            },
    {
        let bytes = match self.read_text_bytes() {
            Ok(b) => b,
            Err(e) => {
                return Err(e);
            },
        };
        match bytes_to_string(bytes) {
            Some(s) => Ok(s),
            None => Err(DecodeError::InvalidEncoding),
        }
    }

    /// Decodes a character: decodes one string, requires it to be non-empty
    /// well-formed text, and takes its first code unit.
    pub fn decode_char(&mut self) -> (r: Result<char, DecodeError>)
        requires
            old(self).wf(),
        ensures
            final(self).wf(),
            match parse_string(old(self)@) {
                Parsed::Found(bs, used) => final(self)@ == old(self)@.skip(used) && (
                if valid_utf8(bs) && bs.len() > 0 {
                    r == Ok::<char, DecodeError>(bs[0] as char)
                } else {
                    r == Err::<char, DecodeError>(DecodeError::InvalidEncoding)
                }),
                Parsed::Eof => r == Err::<char, DecodeError>(DecodeError::UnexpectedEndOfStream),
                Parsed::BadTag(t) => r == Err::<char, DecodeError>(
                    DecodeError::InvalidTag { expected: TagKind::Text, found: t },
                ) && final(self)@ == old(self)@.skip(1),
            },
    {
        let bytes = match self.read_text_bytes() {
            Ok(b) => b,
            Err(e) => {
                return Err(e);
            },
        };
        if bytes.len() == 0 {
            return Err(DecodeError::InvalidEncoding);
        }
        let b0 = bytes[0];
        match bytes_to_string(bytes) {
            Some(_) => Ok(b0 as char),
            None => Err(DecodeError::InvalidEncoding),
        }
    }

}

} // verus!
