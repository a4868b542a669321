//! Big-endian fixed-width integer codec: the primitive readers and writers
//! that every binary decoder in this crate is built on.

use vstd::prelude::*;
use vstd::string::*;

verus! {

/// Mathematical value of a byte sequence read as a big-endian integer.
pub open spec fn be_val(s: Seq<u8>) -> nat
    decreases s.len(),
{
    if s.len() == 0 {
        0
    } else {
        (be_val(s.drop_last()) * 256 + s.last()) as nat
    }
}

/// Big-endian encoding of the low `w` bytes of `v`.
pub open spec fn be_bytes(v: nat, w: nat) -> Seq<u8>
    decreases w,
{
    if w == 0 {
        Seq::empty()
    } else {
        be_bytes(v / 256, (w - 1) as nat).push((v % 256) as u8)
    }
}

/// 256 to the power `w`: the number of values a `w`-byte field can hold.
pub open spec fn pow256(w: nat) -> nat
    decreases w,
{
    if w == 0 {
        1
    } else {
        256 * pow256((w - 1) as nat)
    }
}

pub proof fn lemma_pow256_le(i: nat, j: nat)
    requires
        i <= j,
    ensures
        pow256(i) <= pow256(j),
    decreases j,
{
    if i < j {
        lemma_pow256_le(i, (j - 1) as nat);
        assert(pow256(j) == 256 * pow256((j - 1) as nat));
    }
}

pub proof fn lemma_be_val_bound(s: Seq<u8>)
    ensures
        be_val(s) < pow256(s.len()),
    decreases s.len(),
{
    if s.len() > 0 {
        lemma_be_val_bound(s.drop_last());
    }
}

proof fn lemma_be_val_push(s: Seq<u8>, x: u8)
    ensures
        be_val(s.push(x)) == be_val(s) * 256 + x,
{
    assert(s.push(x).drop_last() =~= s);
    assert(s.push(x).last() == x);
}

/// Decoding inverts encoding: any value that fits in `w` bytes survives a
/// round trip through the big-endian codec.
pub proof fn lemma_be_decode_encode(v: nat, w: nat)
    requires
        v < pow256(w),
    ensures
        be_val(be_bytes(v, w)) == v,
    decreases w,
{
    if w == 0 {
    } else {
        let q = v / 256;
        let r = v % 256;
        assert(v == q * 256 + r && r < 256 && q < pow256((w - 1) as nat)) by (nonlinear_arith)
            requires
                v < pow256(w),
                pow256(w) == 256 * pow256((w - 1) as nat),
                q == v / 256,
                r == v % 256,
        ;
        lemma_be_decode_encode(q, (w - 1) as nat);
        lemma_be_val_push(be_bytes(q, (w - 1) as nat), r as u8);
    }
}

/// Encoding inverts decoding: a byte sequence of width `w` is reproduced
/// exactly by encoding its decoded value back into `w` bytes.
pub proof fn lemma_be_encode_decode(s: Seq<u8>)
    ensures
        be_bytes(be_val(s), s.len()) == s,
    decreases s.len(),
{
    if s.len() == 0 {
        assert(be_bytes(be_val(s), s.len()) =~= s);
    } else {
        let d = s.drop_last();
        let x = s.last();
        let v = be_val(s);
        assert(v == be_val(d) * 256 + x);
        assert(v / 256 == be_val(d) && v % 256 == x) by (nonlinear_arith)
            requires
                v == be_val(d) * 256 + x,
                0 <= x < 256,
                be_val(d) >= 0,
        ;
        lemma_be_encode_decode(d);
        assert(be_bytes(v, s.len()) =~= d.push(x));
        assert(d.push(x) =~= s);
    }
}

proof fn lemma_pow256_values()
    ensures
        pow256(1) == 0x100,
        pow256(2) == 0x1_0000,
        pow256(4) == 0x1_0000_0000,
        pow256(7) == 0x100_0000_0000_0000,
        pow256(8) == 0x1_0000_0000_0000_0000,
{
    assert(pow256(0) == 1);
    assert(pow256(1) == 0x100);
    assert(pow256(2) == 0x1_0000);
    assert(pow256(3) == 0x100_0000);
    assert(pow256(4) == 0x1_0000_0000);
    assert(pow256(5) == 0x100_0000_0000);
    assert(pow256(6) == 0x1_0000_0000_0000);
    assert(pow256(7) == 0x100_0000_0000_0000);
    assert(pow256(8) == 0x1_0000_0000_0000_0000);
}

/// Reads `w` bytes starting at `pos` as a big-endian unsigned integer.
/// Returns `None` exactly when the buffer is too short.
pub fn read_be(b: &Vec<u8>, pos: usize, w: usize) -> (r: Option<u64>)
    requires
        w <= 8,
    ensures
        pos + w <= b@.len() ==> r == Some(
            (be_val(b@.subrange(pos as int, pos + w)) as u64),
        ),
        pos + w > b@.len() ==> r is None,
{
    if b.len() < w || pos > b.len() - w {
        return None;
    }
    let mut acc: u64 = 0;
    let mut i: usize = 0;
    proof {
        assert(b@.subrange(pos as int, pos as int) =~= Seq::<u8>::empty());
    }
    while i < w
        invariant
            i <= w <= 8,
            pos + w <= b@.len(),
            pos + w <= usize::MAX,
            acc == be_val(b@.subrange(pos as int, pos + i)),
        decreases w - i,
    {
        proof {
            lemma_be_val_bound(b@.subrange(pos as int, pos + i));
            lemma_pow256_le(i as nat, 7);
            lemma_pow256_values();
            lemma_be_val_push(b@.subrange(pos as int, pos + i), b@[pos + i]);
            assert(b@.subrange(pos as int, pos + i + 1) =~= b@.subrange(
                pos as int,
                pos + i,
            ).push(b@[pos + i]));
        }
        acc = acc * 256 + (b[pos + i] as u64);
        i = i + 1;
    }
    proof {
        lemma_be_val_bound(b@.subrange(pos as int, pos + w));
        lemma_pow256_le(w as nat, 8);
        lemma_pow256_values();
    }
    Some(acc)
}

/// Encodes the low `w` bytes of `v` in big-endian order.
pub fn encode_be(v: u64, w: usize) -> (r: Vec<u8>)
    requires
        w <= 8,
    ensures
        r@ == be_bytes(v as nat, w as nat),
        r@.len() == w,
    decreases w,
{
    if w == 0 {
        let r: Vec<u8> = Vec::new();
        proof {
            assert(r@ =~= be_bytes(v as nat, 0));
        }
        r
    } else {
        let mut r = encode_be(v / 256, w - 1);
        r.push((v % 256) as u8);
        proof {
            assert(v as nat / 256 == (v / 256) as nat);
            assert(v as nat % 256 == (v % 256) as nat);
            assert(r@ =~= be_bytes(v as nat, w as nat));
        }
        r
    }
}

/// Appends the whole of `src` to `dst`.
pub fn push_all(dst: &mut Vec<u8>, src: &Vec<u8>)
    ensures
        final(dst)@ == old(dst)@ + src@,
{
    let mut i: usize = 0;
    proof {
        assert(dst@ =~= old(dst)@ + src@.subrange(0, 0));
    }
    while i < src.len()
        invariant
            i <= src@.len(),
            dst@ == old(dst)@ + src@.subrange(0, i as int),
        decreases src@.len() - i,
    {
        dst.push(src[i]);
        proof {
            assert(old(dst)@ + src@.subrange(0, i + 1) =~= (old(dst)@ + src@.subrange(
                0,
                i as int,
            )).push(src@[i as int]));
        }
        i = i + 1;
    }
    proof {
        assert(src@.subrange(0, src@.len() as int) =~= src@);
    }
}

/// Appends the 2-byte big-endian encoding of `v` to `out`.
pub fn write_u16_be(out: &mut Vec<u8>, v: u16)
    ensures
        final(out)@ == old(out)@ + be_bytes(v as nat, 2),
{
    let e = encode_be(v as u64, 2);
    push_all(out, &e);
}

/// Appends the 4-byte big-endian encoding of `v` to `out`.
pub fn write_u32_be(out: &mut Vec<u8>, v: u32)
    ensures
        final(out)@ == old(out)@ + be_bytes(v as nat, 4),
{
    let e = encode_be(v as u64, 4);
    push_all(out, &e);
}

/// Reads one byte; `None` exactly when `pos` is out of range.
pub fn read_u8_at(b: &Vec<u8>, pos: usize) -> (r: Option<u8>)
    ensures
        pos < b@.len() ==> r == Some(b@[pos as int]),
        pos >= b@.len() ==> r is None,
{
    if pos < b.len() {
        Some(b[pos])
    } else {
        None
    }
}

/// Reads a big-endian `u16`; `None` exactly when fewer than 2 bytes remain.
pub fn read_u16_at(b: &Vec<u8>, pos: usize) -> (r: Option<u16>)
    ensures
        pos + 2 <= b@.len() ==> r == Some((be_val(b@.subrange(pos as int, pos + 2)) as u16)),
        pos + 2 > b@.len() ==> r is None,
{
    match read_be(b, pos, 2) {
        Some(v) => {
            proof {
                lemma_be_val_bound(b@.subrange(pos as int, pos + 2));
                lemma_pow256_values();
            }
            Some(v as u16)
        },
        None => None,
    }
}

/// Reads a big-endian `u32`; `None` exactly when fewer than 4 bytes remain.
pub fn read_u32_at(b: &Vec<u8>, pos: usize) -> (r: Option<u32>)
    ensures
        pos + 4 <= b@.len() ==> r == Some((be_val(b@.subrange(pos as int, pos + 4)) as u32)),
        pos + 4 > b@.len() ==> r is None,
{
    match read_be(b, pos, 4) {
        Some(v) => {
            proof {
                lemma_be_val_bound(b@.subrange(pos as int, pos + 4));
                lemma_pow256_values();
            }
            Some(v as u32)
        },
        None => None,
    }
}

/// Reads a big-endian `u64`; `None` exactly when fewer than 8 bytes remain.
pub fn read_u64_at(b: &Vec<u8>, pos: usize) -> (r: Option<u64>)
    ensures
        pos + 8 <= b@.len() ==> r == Some((be_val(b@.subrange(pos as int, pos + 8)) as u64)),
        pos + 8 > b@.len() ==> r is None,
{
    read_be(b, pos, 8)
}

/// Two's-complement reinterpretation of a `u32` as an `i32`.
pub open spec fn i32_of_u32(v: u32) -> i32 {
    if v < 0x8000_0000 {
        v as i32
    } else {
        (v - 0x1_0000_0000) as i32
    }
}

/// Two's-complement reinterpretation of a `u16` as an `i16`.
pub open spec fn i16_of_u16(v: u16) -> i16 {
    if v < 0x8000 {
        v as i16
    } else {
        (v - 0x1_0000) as i16
    }
}

/// Two's-complement reinterpretation of a `u8` as an `i8`.
pub open spec fn i8_of_u8(v: u8) -> i8 {
    if v < 0x80 {
        v as i8
    } else {
        (v - 0x100) as i8
    }
}

/// Two's-complement reinterpretation of a `u64` as an `i64`.
pub open spec fn i64_of_u64(v: u64) -> i64 {
    if v < 0x8000_0000_0000_0000 {
        v as i64
    } else {
        (v - 0x1_0000_0000_0000_0000) as i64
    }
}

/// Executable two's-complement conversion, proved against `i32_of_u32`.
pub fn u32_to_i32(v: u32) -> (r: i32)
    ensures
        r == i32_of_u32(v),
{
    if v >= 0x8000_0000 {
        let m: u32 = 0xFFFF_FFFF - v;
        -(m as i32) - 1
    } else {
        v as i32
    }
}

/// Executable two's-complement conversion, proved against `i16_of_u16`.
pub fn u16_to_i16(v: u16) -> (r: i16)
    ensures
        r == i16_of_u16(v),
{
    if v >= 0x8000 {
        let m: u16 = 0xFFFF - v;
        -(m as i16) - 1
    } else {
        v as i16
    }
}

/// Executable two's-complement conversion, proved against `i8_of_u8`.
pub fn u8_to_i8(v: u8) -> (r: i8)
    ensures
        r == i8_of_u8(v),
{
    if v >= 0x80 {
        let m: u8 = 0xFF - v;
        -(m as i8) - 1
    } else {
        v as i8
    }
}

/// Executable two's-complement conversion, proved against `i64_of_u64`.
pub fn u64_to_i64(v: u64) -> (r: i64)
    ensures
        r == i64_of_u64(v),
{
    if v >= 0x8000_0000_0000_0000 {
        let m: u64 = 0xFFFF_FFFF_FFFF_FFFF - v;
        -(m as i64) - 1
    } else {
        v as i64
    }
}

/// Reads a big-endian `i32`; `None` exactly when fewer than 4 bytes remain.
pub fn read_i32_at(b: &Vec<u8>, pos: usize) -> (r: Option<i32>)
    ensures
        pos + 4 <= b@.len() ==> r == Some(
            i32_of_u32((be_val(b@.subrange(pos as int, pos + 4)) as u32)),
        ),
        pos + 4 > b@.len() ==> r is None,
{
    match read_u32_at(b, pos) {
        Some(v) => Some(u32_to_i32(v)),
        None => None,
    }
}

/// Reads a big-endian `i16`; `None` exactly when fewer than 2 bytes remain.
pub fn read_i16_at(b: &Vec<u8>, pos: usize) -> (r: Option<i16>)
    ensures
        pos + 2 <= b@.len() ==> r == Some(
            i16_of_u16((be_val(b@.subrange(pos as int, pos + 2)) as u16)),
        ),
        pos + 2 > b@.len() ==> r is None,
{
    match read_u16_at(b, pos) {
        Some(v) => Some(u16_to_i16(v)),
        None => None,
    }
}

/// Reads an `i8`; `None` exactly when `pos` is out of range.
pub fn read_i8_at(b: &Vec<u8>, pos: usize) -> (r: Option<i8>)
    ensures
        pos < b@.len() ==> r == Some(i8_of_u8(b@[pos as int])),
        pos >= b@.len() ==> r is None,
{
    match read_u8_at(b, pos) {
        Some(v) => Some(u8_to_i8(v)),
        None => None,
    }
}

/// Reads a big-endian `i64`; `None` exactly when fewer than 8 bytes remain.
pub fn read_i64_at(b: &Vec<u8>, pos: usize) -> (r: Option<i64>)
    ensures
        pos + 8 <= b@.len() ==> r == Some(
            i64_of_u64((be_val(b@.subrange(pos as int, pos + 8)) as u64)),
        ),
        pos + 8 > b@.len() ==> r is None,
{
    match read_u64_at(b, pos) {
        Some(v) => Some(u64_to_i64(v)),
        None => None,
    }
}
/// The decimal digit `d` as a character.
pub open spec fn digit_char(d: int) -> char {
    if d == 0 {
        '0'
    } else if d == 1 {
        '1'
    } else if d == 2 {
        '2'
    } else if d == 3 {
        '3'
    } else if d == 4 {
        '4'
    } else if d == 5 {
        '5'
    } else if d == 6 {
        '6'
    } else if d == 7 {
        '7'
    } else if d == 8 {
        '8'
    } else {
        '9'
    }
}

/// Decimal rendering of a byte value, without leading zeros.
pub open spec fn dec_u8_seq(v: u8) -> Seq<char> {
    if v < 10 {
        seq![digit_char(v as int)]
    } else if v < 100 {
        seq![digit_char(v as int / 10), digit_char(v as int % 10)]
    } else {
        seq![
            digit_char(v as int / 100),
            digit_char((v as int / 10) % 10),
            digit_char(v as int % 10),
        ]
    }
}


/// Appends one decimal digit to `out`.
pub fn append_digit(out: &mut String, d: u8)
    requires
        d < 10,
    ensures
        final(out)@ == old(out)@ + seq![digit_char(d as int)],
{
    if d == 0 {
        out.append("0");
        proof {
            reveal_strlit("0");
            assert(final(out)@ =~= old(out)@ + seq![digit_char(d as int)]);
        }
    } else if d == 1 {
        out.append("1");
        proof {
            reveal_strlit("1");
            assert(final(out)@ =~= old(out)@ + seq![digit_char(d as int)]);
        }
    } else if d == 2 {
        out.append("2");
        proof {
            reveal_strlit("2");
            assert(final(out)@ =~= old(out)@ + seq![digit_char(d as int)]);
        }
    } else if d == 3 {
        out.append("3");
        proof {
            reveal_strlit("3");
            assert(final(out)@ =~= old(out)@ + seq![digit_char(d as int)]);
        }
    } else if d == 4 {
        out.append("4");
        proof {
            reveal_strlit("4");
            assert(final(out)@ =~= old(out)@ + seq![digit_char(d as int)]);
        }
    } else if d == 5 {
        out.append("5");
        proof {
            reveal_strlit("5");
            assert(final(out)@ =~= old(out)@ + seq![digit_char(d as int)]);
        }
    } else if d == 6 {
        out.append("6");
        proof {
            reveal_strlit("6");
            assert(final(out)@ =~= old(out)@ + seq![digit_char(d as int)]);
        }
    } else if d == 7 {
        out.append("7");
        proof {
            reveal_strlit("7");
            assert(final(out)@ =~= old(out)@ + seq![digit_char(d as int)]);
        }
    } else if d == 8 {
        out.append("8");
        proof {
            reveal_strlit("8");
            assert(final(out)@ =~= old(out)@ + seq![digit_char(d as int)]);
        }
    } else {
        out.append("9");
        proof {
            reveal_strlit("9");
            assert(final(out)@ =~= old(out)@ + seq![digit_char(d as int)]);
        }
    }
}

/// Appends the decimal rendering of `v` to `out`.
pub fn append_dec_u8(out: &mut String, v: u8)
    ensures
        final(out)@ == old(out)@ + dec_u8_seq(v),
{
    if v >= 100 {
        append_digit(out, v / 100);
        append_digit(out, (v / 10) % 10);
        append_digit(out, v % 10);
        proof {
            assert(final(out)@ =~= old(out)@ + dec_u8_seq(v));
        }
    } else if v >= 10 {
        append_digit(out, v / 10);
        append_digit(out, v % 10);
        proof {
            assert(final(out)@ =~= old(out)@ + dec_u8_seq(v));
        }
    } else {
        append_digit(out, v);
        proof {
            assert(final(out)@ =~= old(out)@ + dec_u8_seq(v));
        }
    }
}

/// The big-endian `u16` at offset `i`.
pub open spec fn u16_at(code: Seq<u8>, i: int) -> u16 {
    be_val(code.subrange(i, i + 2)) as u16
}

/// The big-endian `u32` at offset `i`.
pub open spec fn u32_at(code: Seq<u8>, i: int) -> u32 {
    be_val(code.subrange(i, i + 4)) as u32
}

/// The `i8` at offset `i`.
pub open spec fn i8_at(code: Seq<u8>, i: int) -> i8 {
    i8_of_u8(code[i])
}

/// The big-endian `i16` at offset `i`.
pub open spec fn i16_at(code: Seq<u8>, i: int) -> i16 {
    i16_of_u16(u16_at(code, i))
}

/// The big-endian `i32` at offset `i`.
pub open spec fn i32_at(code: Seq<u8>, i: int) -> i32 {
    i32_of_u32(u32_at(code, i))
}


/// The big-endian `u64` at offset `i`.
pub open spec fn u64_at(code: Seq<u8>, i: int) -> u64 {
    be_val(code.subrange(i, i + 8)) as u64
}

/// The big-endian `i64` at offset `i`.
pub open spec fn i64_at(code: Seq<u8>, i: int) -> i64 {
    i64_of_u64(u64_at(code, i))
}

/// Two's-complement reinterpretation of an `i32` as a `u32`.
pub open spec fn u32_of_i32(v: i32) -> u32 {
    if v >= 0 {
        v as u32
    } else {
        (v + 0x1_0000_0000) as u32
    }
}

/// Executable two's-complement conversion, proved against `u32_of_i32`.
pub fn i32_to_u32(v: i32) -> (r: u32)
    ensures
        r == u32_of_i32(v),
{
    if v >= 0 {
        v as u32
    } else {
        let m: i32 = -(v + 1);
        0xFFFF_FFFFu32 - (m as u32)
    }
}

/// The big-endian encoding of width `w` has exactly `w` bytes.
pub proof fn lemma_be_bytes_len(v: nat, w: nat)
    ensures
        be_bytes(v, w).len() == w,
    decreases w,
{
    if w > 0 {
        lemma_be_bytes_len(v / 256, (w - 1) as nat);
    }
}

} // verus!
