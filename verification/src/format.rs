//! The wire format, written down as specification-level parsers.
//!
//! Each `parse_*` function is the bit-exact meaning of one format family:
//! given the remaining bytes of a stream, it says whether a value of that
//! family is present, what the value is, and how many bytes it occupies.
//! Every decoding method of [`crate::decoder::Decoder`] is proved against
//! these. The `encode_*` functions give the minimal-width wire form of an
//! integer, and the round-trip lemmas prove that parsing an encoded integer
//! gives the integer back.

use vstd::prelude::*;

verus! {

/// What the head of a byte stream holds for one format family: a value and
/// the count of bytes it occupies, a truncated stream, or a tag byte that
/// belongs to no pattern of the family.
pub enum Parsed<T> {
    Found(T, int),
    Eof,
    BadTag(u8),
}

/// The value of a byte run read as a big-endian unsigned integer.
pub open spec fn be_bytes(s: Seq<u8>) -> nat
    decreases s.len(),
{
    if s.len() == 0 {
        0
    } else {
        be_bytes(s.drop_last()) * 256 + (s.last() as nat)
    }
}

/// `256^n`: one past the largest value `n` big-endian bytes can hold.
pub open spec fn pow256(n: nat) -> nat
    decreases n,
{
    if n == 0 {
        1
    } else {
        256 * pow256((n - 1) as nat)
    }
}

/// The `n`-byte big-endian encoding of `v`.
pub open spec fn be_encode(v: nat, n: nat) -> Seq<u8>
    decreases n,
{
    if n == 0 {
        Seq::empty()
    } else {
        be_encode(v / 256, (n - 1) as nat).push((v % 256) as u8)
    }
}

/// An `n`-byte big-endian value reinterpreted as a two's-complement signed
/// integer.
pub open spec fn signed_of(u: nat, n: nat) -> int {
    if u < pow256(n) / 2 {
        u as int
    } else {
        u as int - pow256(n) as int
    }
}

/// The two's-complement bit pattern of `v` in `n` bytes, as an unsigned
/// value.
pub open spec fn two_complement(v: int, n: nat) -> nat {
    if v >= 0 {
        v as nat
    } else {
        (v + pow256(n)) as nat
    }
}

/// An unsigned integer at the head of `s`: a positive fixed integer
/// (`0x00..=0x7f`), or `0xcc`/`0xcd`/`0xce`/`0xcf` followed by 1/2/4/8
/// big-endian bytes.
pub open spec fn parse_unsigned(s: Seq<u8>) -> Parsed<u64> {
    if s.len() == 0 {
        Parsed::Eof
    } else {
        let t = s[0];
        if t <= 0x7f {
            Parsed::Found(t as u64, 1)
        } else if t == 0xcc {
            if s.len() >= 2 {
                Parsed::Found(be_bytes(s.subrange(1, 2)) as u64, 2)
            } else {
                Parsed::Eof
            }
        } else if t == 0xcd {
            if s.len() >= 3 {
                Parsed::Found(be_bytes(s.subrange(1, 3)) as u64, 3)
            } else {
                Parsed::Eof
            }
        } else if t == 0xce {
            if s.len() >= 5 {
                Parsed::Found(be_bytes(s.subrange(1, 5)) as u64, 5)
            } else {
                Parsed::Eof
            }
        } else if t == 0xcf {
            if s.len() >= 9 {
                Parsed::Found(be_bytes(s.subrange(1, 9)) as u64, 9)
            } else {
                Parsed::Eof
            }
        } else {
            Parsed::BadTag(t)
        }
    }
}

/// A signed integer at the head of `s`: a negative fixed integer
/// (`0xe0..=0xff`, the byte reinterpreted as a signed 8-bit value), or
/// `0xd0`/`0xd1`/`0xd2`/`0xd3` followed by a two's-complement big-endian
/// value of 1/2/4/8 bytes.
pub open spec fn parse_signed(s: Seq<u8>) -> Parsed<int> {
    if s.len() == 0 {
        Parsed::Eof
    } else {
        let t = s[0];
        if t >= 0xe0 {
            Parsed::Found(t as int - 0x100, 1)
        } else if t == 0xd0 {
            if s.len() >= 2 {
                Parsed::Found(signed_of(be_bytes(s.subrange(1, 2)), 1), 2)
            } else {
                Parsed::Eof
            }
        } else if t == 0xd1 {
            if s.len() >= 3 {
                Parsed::Found(signed_of(be_bytes(s.subrange(1, 3)), 2), 3)
            } else {
                Parsed::Eof
            }
        } else if t == 0xd2 {
            if s.len() >= 5 {
                Parsed::Found(signed_of(be_bytes(s.subrange(1, 5)), 4), 5)
            } else {
                Parsed::Eof
            }
        } else if t == 0xd3 {
            if s.len() >= 9 {
                Parsed::Found(signed_of(be_bytes(s.subrange(1, 9)), 8), 9)
            } else {
                Parsed::Eof
            }
        } else {
            Parsed::BadTag(t)
        }
    }
}

/// The nil value: the single byte `0xc0`.
pub open spec fn parse_nil(s: Seq<u8>) -> Parsed<()> {
    if s.len() == 0 {
        Parsed::Eof
    } else if s[0] == 0xc0 {
        Parsed::Found((), 1)
    } else {
        Parsed::BadTag(s[0])
    }
}

/// A boolean: `0xc2` is false, `0xc3` is true.
pub open spec fn parse_bool(s: Seq<u8>) -> Parsed<bool> {
    if s.len() == 0 {
        Parsed::Eof
    } else if s[0] == 0xc2 {
        Parsed::Found(false, 1)
    } else if s[0] == 0xc3 {
        Parsed::Found(true, 1)
    } else {
        Parsed::BadTag(s[0])
    }
}

/// The raw bit pattern of a 32-bit float: `0xca` followed by 4 big-endian
/// bytes.
pub open spec fn parse_float32_bits(s: Seq<u8>) -> Parsed<u32> {
    if s.len() == 0 {
        Parsed::Eof
    } else if s[0] == 0xca {
        if s.len() >= 5 {
            Parsed::Found(be_bytes(s.subrange(1, 5)) as u32, 5)
        } else {
            Parsed::Eof
        }
    } else {
        Parsed::BadTag(s[0])
    }
}

/// The raw bit pattern of a 64-bit float: `0xcb` followed by 8 big-endian
/// bytes.
pub open spec fn parse_float64_bits(s: Seq<u8>) -> Parsed<u64> {
    if s.len() == 0 {
        Parsed::Eof
    } else if s[0] == 0xcb {
        if s.len() >= 9 {
            Parsed::Found(be_bytes(s.subrange(1, 9)) as u64, 9)
        } else {
            Parsed::Eof
        }
    } else {
        Parsed::BadTag(s[0])
    }
}

/// An array header: `0x90..=0x9f` carries the length in its low nibble;
/// `0xdc`/`0xdd` carry a 16/32-bit big-endian length.
pub open spec fn parse_sequence_length(s: Seq<u8>) -> Parsed<int> {
    if s.len() == 0 {
        Parsed::Eof
    } else {
        let t = s[0];
        if 0x90 <= t && t <= 0x9f {
            Parsed::Found(t - 0x90, 1)
        } else if t == 0xdc {
            if s.len() >= 3 {
                Parsed::Found(be_bytes(s.subrange(1, 3)) as int, 3)
            } else {
                Parsed::Eof
            }
        } else if t == 0xdd {
            if s.len() >= 5 {
                Parsed::Found(be_bytes(s.subrange(1, 5)) as int, 5)
            } else {
                Parsed::Eof
            }
        } else {
            Parsed::BadTag(t)
        }
    }
}

/// A map header: `0x80..=0x8f` carries the entry count in its low nibble;
/// `0xde`/`0xdf` carry a 16/32-bit big-endian count.
pub open spec fn parse_map_length(s: Seq<u8>) -> Parsed<int> {
    if s.len() == 0 {
        Parsed::Eof
    } else {
        let t = s[0];
        if 0x80 <= t && t <= 0x8f {
            Parsed::Found(t - 0x80, 1)
        } else if t == 0xde {
            if s.len() >= 3 {
                Parsed::Found(be_bytes(s.subrange(1, 3)) as int, 3)
            } else {
                Parsed::Eof
            }
        } else if t == 0xdf {
            if s.len() >= 5 {
                Parsed::Found(be_bytes(s.subrange(1, 5)) as int, 5)
            } else {
                Parsed::Eof
            }
        } else {
            Parsed::BadTag(t)
        }
    }
}

/// The raw bytes of a string: `0xa0..=0xbf` carries the byte length in its
/// low 5 bits; `0xda`/`0xdb` carry a 16/32-bit big-endian byte length. The
/// result is the undecoded byte run.
pub open spec fn parse_string(s: Seq<u8>) -> Parsed<Seq<u8>> {
    if s.len() == 0 {
        Parsed::Eof
    } else {
        let t = s[0];
        if 0xa0 <= t && t <= 0xbf {
            let n = t - 0xa0;
            if s.len() >= 1 + n {
                Parsed::Found(s.subrange(1, 1 + n), 1 + n)
            } else {
                Parsed::Eof
            }
        } else if t == 0xda {
            if s.len() >= 3 {
                let n = be_bytes(s.subrange(1, 3)) as int;
                if s.len() >= 3 + n {
                    Parsed::Found(s.subrange(3, 3 + n), 3 + n)
                } else {
                    Parsed::Eof
                }
            } else {
                Parsed::Eof
            }
        } else if t == 0xdb {
            if s.len() >= 5 {
                let n = be_bytes(s.subrange(1, 5)) as int;
                if s.len() >= 5 + n {
                    Parsed::Found(s.subrange(5, 5 + n), 5 + n)
                } else {
                    Parsed::Eof
                }
            } else {
                Parsed::Eof
            }
        } else {
            Parsed::BadTag(t)
        }
    }
}

/// The minimal-width wire form of an unsigned integer: the fixed-positive
/// range where it fits, else the narrowest of the four width tiers.
pub open spec fn encode_unsigned(v: u64) -> Seq<u8> {
    if v <= 0x7f {
        seq![v as u8]
    } else if v <= 0xff {
        seq![0xccu8, v as u8]
    } else if v <= 0xffff {
        seq![0xcdu8] + be_encode(v as nat, 2)
    } else if v <= 0xffff_ffff {
        seq![0xceu8] + be_encode(v as nat, 4)
    } else {
        seq![0xcfu8] + be_encode(v as nat, 8)
    }
}

/// The minimal-width wire form of a signed integer: the fixed-negative
/// range where it fits, else the narrowest of the four signed width tiers.
pub open spec fn encode_signed(v: i64) -> Seq<u8> {
    if -32 <= v && v <= -1 {
        seq![(v + 0x100) as u8]
    } else if -0x80 <= v && v <= 0x7f {
        seq![0xd0u8] + be_encode(two_complement(v as int, 1), 1)
    } else if -0x8000 <= v && v <= 0x7fff {
        seq![0xd1u8] + be_encode(two_complement(v as int, 2), 2)
    } else if -0x8000_0000 <= v && v <= 0x7fff_ffff {
        seq![0xd2u8] + be_encode(two_complement(v as int, 4), 4)
    } else {
        seq![0xd3u8] + be_encode(two_complement(v as int, 8), 8)
    }
}

/// Appending one byte multiplies the big-endian value by 256 and adds it.
pub proof fn lemma_be_bytes_push(s: Seq<u8>, b: u8)
    ensures
        be_bytes(s.push(b)) == be_bytes(s) * 256 + b,
{
    assert(s.push(b).drop_last() =~= s);
    assert(s.push(b).last() == b);
}

/// `n` big-endian bytes hold a value below `256^n`.
pub proof fn lemma_be_bytes_bound(s: Seq<u8>)
    ensures
        be_bytes(s) < pow256(s.len()),
    decreases s.len(),
{
    if s.len() == 0 {
    } else {
        lemma_be_bytes_bound(s.drop_last());
        assert(be_bytes(s.drop_last()) + 1 <= pow256((s.len() - 1) as nat));
        assert(be_bytes(s.drop_last()) * 256 + 256 <= pow256((s.len() - 1) as nat) * 256);
    }
}

/// `pow256` does not decrease.
pub proof fn lemma_pow256_increases(a: nat, b: nat)
    requires
        a <= b,
    ensures
        pow256(a) <= pow256(b),
    decreases b,
{
    if a < b {
        lemma_pow256_increases(a, (b - 1) as nat);
    }
}

/// The values of `pow256` up to eight bytes.
pub proof fn lemma_pow256_values()
    ensures
        pow256(0) == 1,
        pow256(1) == 0x100,
        pow256(2) == 0x1_0000,
        pow256(4) == 0x1_0000_0000,
        pow256(7) == 0x100_0000_0000_0000,
        pow256(8) == 0x1_0000_0000_0000_0000,
{
    assert(pow256(0) == 1);
    assert(pow256(1) == 0x100);
    assert(pow256(2) == 0x1_0000);
    assert(pow256(3) == 0x100_0000);
    assert(pow256(4) == 0x1_0000_0000);
    assert(pow256(5) == 0x100_0000_0000);
    assert(pow256(6) == 0x1_0000_0000_0000);
    assert(pow256(7) == 0x100_0000_0000_0000);
    assert(pow256(8) == 0x1_0000_0000_0000_0000);
}

/// `be_encode` produces exactly `n` bytes.
pub proof fn lemma_be_encode_len(v: nat, n: nat)
    ensures
        be_encode(v, n).len() == n,
    decreases n,
{
    if n > 0 {
        lemma_be_encode_len(v / 256, (n - 1) as nat);
    }
}

/// Reading back an `n`-byte big-endian encoding gives the encoded value.
pub proof fn lemma_be_decode_encode(v: nat, n: nat)
    requires
        v < pow256(n),
    ensures
        be_bytes(be_encode(v, n)) == v,
    decreases n,
{
    if n == 0 {
    } else {
        assert(v == 256 * (v / 256) + v % 256);
        assert(v / 256 < pow256((n - 1) as nat)) by {
            if v / 256 >= pow256((n - 1) as nat) {
                assert(256 * (v / 256) >= 256 * pow256((n - 1) as nat));
            }
        }
        lemma_be_decode_encode(v / 256, (n - 1) as nat);
        lemma_be_bytes_push(be_encode(v / 256, (n - 1) as nat), (v % 256) as u8);
    }
}

/// At most eight big-endian bytes fit a 64-bit value.
pub proof fn lemma_be_bytes_u64(s: Seq<u8>)
    requires
        s.len() <= 8,
    ensures
        be_bytes(s) < 0x1_0000_0000_0000_0000,
{
    lemma_be_bytes_bound(s);
    lemma_pow256_increases(s.len(), 8);
    lemma_pow256_values();
}

/// Splitting a window out of a stream: the `n` bytes at offset `a` are the
/// same whether taken after a skip or as a subrange, and skipping them in
/// two steps is skipping them at once.
pub proof fn lemma_window(s: Seq<u8>, a: int, n: int)
    requires
        0 <= a,
        0 <= n,
    ensures
        s.len() >= a + n ==> s.skip(a).take(n) == s.subrange(a, a + n) && s.skip(a).skip(n)
            == s.skip(a + n),
{
    if s.len() >= a + n {
        assert(s.skip(a).take(n) =~= s.subrange(a, a + n));
        assert(s.skip(a).skip(n) =~= s.skip(a + n));
    }
}

/// Round trip for unsigned integers: for every `v`, the minimal-width wire
/// form of `v` at the head of a stream parses back to exactly `v`, consuming
/// exactly the encoding and leaving the rest of the stream.
pub proof fn lemma_unsigned_round_trip(v: u64, rest: Seq<u8>)
    ensures
        parse_unsigned(encode_unsigned(v) + rest) == Parsed::Found(v, encode_unsigned(v).len() as int),
        (encode_unsigned(v) + rest).skip(encode_unsigned(v).len() as int) == rest,
{
    let e = encode_unsigned(v);
    let s = e + rest;
    lemma_pow256_values();
    assert(s.skip(e.len() as int) =~= rest);
    if v <= 0x7f {
        assert(s[0] == v as u8);
    } else if v <= 0xff {
        assert(s[0] == 0xcc);
        assert(s.subrange(1, 2) =~= seq![v as u8]);
        assert(be_bytes(seq![v as u8]) == v) by {
            lemma_be_bytes_push(Seq::empty(), v as u8);
            assert(Seq::<u8>::empty().push(v as u8) =~= seq![v as u8]);
        }
    } else if v <= 0xffff {
        lemma_be_encode_len(v as nat, 2);
        assert(s.subrange(1, 3) =~= be_encode(v as nat, 2));
        lemma_be_decode_encode(v as nat, 2);
    } else if v <= 0xffff_ffff {
        lemma_be_encode_len(v as nat, 4);
        assert(s.subrange(1, 5) =~= be_encode(v as nat, 4));
        lemma_be_decode_encode(v as nat, 4);
    } else {
        lemma_be_encode_len(v as nat, 8);
        assert(s.subrange(1, 9) =~= be_encode(v as nat, 8));
        lemma_be_decode_encode(v as nat, 8);
    }
}

/// Round trip for signed integers: for every `v`, the minimal-width signed
/// wire form of `v` at the head of a stream parses back to exactly `v`,
/// consuming exactly the encoding and leaving the rest of the stream.
pub proof fn lemma_signed_round_trip(v: i64, rest: Seq<u8>)
    ensures
        parse_signed(encode_signed(v) + rest) == Parsed::Found(v as int, encode_signed(v).len() as int),
        (encode_signed(v) + rest).skip(encode_signed(v).len() as int) == rest,
{
    let e = encode_signed(v);
    let s = e + rest;
    lemma_pow256_values();
    assert(s.skip(e.len() as int) =~= rest);
    if -32 <= v && v <= -1 {
        assert(s[0] == (v + 0x100) as u8);
        assert(s[0] >= 0xe0);
    } else if -0x80 <= v && v <= 0x7f {
        let u = two_complement(v as int, 1);
        lemma_two_complement_round(v as int, 1);
        lemma_be_encode_len(u, 1);
        assert(s.subrange(1, 2) =~= be_encode(u, 1));
        lemma_be_decode_encode(u, 1);
    } else if -0x8000 <= v && v <= 0x7fff {
        let u = two_complement(v as int, 2);
        lemma_two_complement_round(v as int, 2);
        lemma_be_encode_len(u, 2);
        assert(s.subrange(1, 3) =~= be_encode(u, 2));
        lemma_be_decode_encode(u, 2);
    } else if -0x8000_0000 <= v && v <= 0x7fff_ffff {
        let u = two_complement(v as int, 4);
        lemma_two_complement_round(v as int, 4);
        lemma_be_encode_len(u, 4);
        assert(s.subrange(1, 5) =~= be_encode(u, 4));
        lemma_be_decode_encode(u, 4);
    } else {
        let u = two_complement(v as int, 8);
        lemma_two_complement_round(v as int, 8);
        lemma_be_encode_len(u, 8);
        assert(s.subrange(1, 9) =~= be_encode(u, 8));
        lemma_be_decode_encode(u, 8);
    }
}

/// A value that fits `n` bytes survives the trip through its
/// two's-complement bit pattern: the pattern is in range, and reading it
/// back as signed gives the value.
pub proof fn lemma_two_complement_round(v: int, n: nat)
    requires
        n >= 1,
        -(pow256(n) as int) <= 2 * v < pow256(n) as int,
    ensures
        two_complement(v, n) < pow256(n),
        signed_of(two_complement(v, n), n) == v,
{
    let half = 128 * pow256((n - 1) as nat);
    assert(pow256(n) == 2 * half);
    assert(pow256(n) / 2 == half);
}

} // verus!
