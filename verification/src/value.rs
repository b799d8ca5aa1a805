//! Field values: the types of the format and how each is read from bytes.

use crate::endian::{load_u16, load_u32, load_u64, Endian};
use vstd::prelude::*;
use vstd::slice::slice_subrange;

verus! {

/// An unsigned rational number: two 32-bit unsigned integers.
#[derive(Clone, Copy, Debug, PartialEq, Eq, Structural)]
pub struct Rational {
    pub num: u32,
    pub denom: u32,
}

/// A signed rational number: two 32-bit signed integers.
#[derive(Clone, Copy, Debug, PartialEq, Eq, Structural)]
pub struct SRational {
    pub num: i32,
    pub denom: i32,
}

/// The value of a field.
///
/// Strings and undefined data borrow from the buffer that was parsed;
/// numbers are decoded into vectors.
#[derive(Debug, PartialEq, Eq)]
pub enum Value<'a> {
    /// 8-bit unsigned integers.
    Byte(Vec<u8>),
    /// Strings of 8-bit bytes, each without its terminating NUL.
    Ascii(Vec<&'a [u8]>),
    /// 16-bit unsigned integers.
    Short(Vec<u16>),
    /// 32-bit unsigned integers.
    Long(Vec<u32>),
    /// Unsigned rationals.
    Rational(Vec<Rational>),
    /// 8-bit signed integers.
    SByte(Vec<i8>),
    /// Bytes of no declared structure.
    Undefined(&'a [u8]),
    /// 16-bit signed integers.
    SShort(Vec<i16>),
    /// 32-bit signed integers.
    SLong(Vec<i32>),
    /// Signed rationals.
    SRational(Vec<SRational>),
    /// Single precision numbers, each as its IEEE 754 bit pattern
    /// (`f32::from_bits` gives the number).
    Float(Vec<u32>),
    /// Double precision numbers, each as its IEEE 754 bit pattern
    /// (`f64::from_bits` gives the number).
    Double(Vec<u64>),
    /// A value of a type that this library does not know: the type code,
    /// the count, and the offset of the entry's value slot.
    Unknown(u16, u32, u32),
}

/// The mathematical value of a [`Value`].
pub enum ValueModel {
    Byte(Seq<u8>),
    Ascii(Seq<Seq<u8>>),
    Short(Seq<u16>),
    Long(Seq<u32>),
    Rational(Seq<Rational>),
    SByte(Seq<i8>),
    Undefined(Seq<u8>),
    SShort(Seq<i16>),
    SLong(Seq<i32>),
    SRational(Seq<SRational>),
    Float(Seq<u32>),
    Double(Seq<u64>),
    Unknown(u16, u32, u32),
}

/// The contents of each slice of `v`, in order.
pub open spec fn slice_views(v: Seq<&[u8]>) -> Seq<Seq<u8>> {
    Seq::new(v.len(), |i: int| v[i]@)
}

impl<'a> View for Value<'a> {
    type V = ValueModel;

    open spec fn view(&self) -> ValueModel {
        match *self {
            Value::Byte(v) => ValueModel::Byte(v@),
            Value::Ascii(v) => ValueModel::Ascii(slice_views(v@)),
            Value::Short(v) => ValueModel::Short(v@),
            Value::Long(v) => ValueModel::Long(v@),
            Value::Rational(v) => ValueModel::Rational(v@),
            Value::SByte(v) => ValueModel::SByte(v@),
            Value::Undefined(s) => ValueModel::Undefined(s@),
            Value::SShort(v) => ValueModel::SShort(v@),
            Value::SLong(v) => ValueModel::SLong(v@),
            Value::SRational(v) => ValueModel::SRational(v@),
            Value::Float(v) => ValueModel::Float(v@),
            Value::Double(v) => ValueModel::Double(v@),
            Value::Unknown(t, c, o) => ValueModel::Unknown(t, c, o),
        }
    }
}

/// The size in bytes of one unit of the type with code `typ`; 0 if the code
/// is not one of the twelve types of the format.
pub open spec fn unit_len(typ: u16) -> nat {
    if typ == 1 || typ == 2 || typ == 6 || typ == 7 {
        1
    } else if typ == 3 || typ == 8 {
        2
    } else if typ == 4 || typ == 9 || typ == 11 {
        4
    } else if typ == 5 || typ == 10 || typ == 12 {
        8
    } else {
        0
    }
}

/// The signed number that the byte `b` stands for in two's complement.
pub open spec fn signed8(b: u8) -> i8 {
    if b < 0x80 {
        b as i8
    } else {
        (b - 0x100) as i8
    }
}

/// The signed number that `n` stands for in two's complement.
pub open spec fn signed16(n: u16) -> i16 {
    if n < 0x8000 {
        n as i16
    } else {
        (n - 0x1_0000) as i16
    }
}

/// The signed number that `n` stands for in two's complement.
pub open spec fn signed32(n: u32) -> i32 {
    if n < 0x8000_0000 {
        n as i32
    } else {
        (n - 0x1_0000_0000) as i32
    }
}

/// The pieces into which the zero bytes of `s` cut it, in order.  There is
/// one piece more than there are zero bytes, and a piece may be empty.
pub open spec fn split_nul(s: Seq<u8>) -> Seq<Seq<u8>>
    decreases s.len(),
{
    if s.len() == 0 {
        seq![Seq::empty()]
    } else {
        let before = split_nul(s.drop_last());
        if s.last() == 0 {
            before.push(Seq::empty())
        } else {
            before.drop_last().push(before.last().push(s.last()))
        }
    }
}

/// The pieces written one after another, with a zero byte between each two.
pub open spec fn join_nul(pieces: Seq<Seq<u8>>) -> Seq<u8>
    decreases pieces.len(),
{
    if pieces.len() == 0 {
        Seq::empty()
    } else if pieces.len() == 1 {
        pieces[0]
    } else {
        join_nul(pieces.drop_last()) + seq![0u8] + pieces.last()
    }
}

/// Cutting at the zero bytes loses nothing but them: there is at least one
/// piece, no piece holds a zero byte, and the pieces put together again with
/// a zero byte between each two are the bytes that were cut.
pub proof fn lemma_split_nul_cuts_at_zeros(s: Seq<u8>)
    ensures
        split_nul(s).len() >= 1,
        join_nul(split_nul(s)) == s,
        forall|i: int, j: int|
            0 <= i < split_nul(s).len() && 0 <= j < split_nul(s)[i].len() ==> #[trigger] split_nul(
                s,
            )[i][j] != 0,
    decreases s.len(),
{
    if s.len() > 0 {
        let t = s.drop_last();
        let x = s.last();
        let before = split_nul(t);
        lemma_split_nul_cuts_at_zeros(t);
        assert(t.push(x) =~= s);
        if x == 0 {
            let pieces = before.push(Seq::empty());
            assert(pieces.drop_last() =~= before);
            assert(join_nul(pieces) =~= t.push(x));
        } else {
            let last = before.last().push(x);
            let pieces = before.drop_last().push(last);
            assert(pieces.drop_last() =~= before.drop_last());
            if before.len() == 1 {
                assert(join_nul(pieces) =~= t.push(x));
            } else {
                assert(join_nul(before) == join_nul(before.drop_last()) + seq![0u8]
                    + before.last());
                assert(join_nul(pieces) =~= join_nul(before).push(x));
            }
        }
    }
}

/// The strings held in the bytes `s` of an ASCII field: the pieces between
/// the zero bytes, without the empty piece that follows a final zero byte.
pub open spec fn ascii_strings(s: Seq<u8>) -> Seq<Seq<u8>> {
    let pieces = split_nul(s);
    if pieces.last().len() == 0 {
        pieces.drop_last()
    } else {
        pieces
    }
}

/// The `count` 16-bit numbers that stand one after another from `offset`.
pub open spec fn shorts_at(data: Seq<u8>, little: bool, offset: int, count: nat) -> Seq<u16> {
    Seq::new(count, |i: int| load_u16(data, offset + 2 * i, little))
}

/// The `count` 32-bit numbers that stand one after another from `offset`.
pub open spec fn longs_at(data: Seq<u8>, little: bool, offset: int, count: nat) -> Seq<u32> {
    Seq::new(count, |i: int| load_u32(data, offset + 4 * i, little))
}

/// The `count` 64-bit numbers that stand one after another from `offset`.
pub open spec fn doubles_at(data: Seq<u8>, little: bool, offset: int, count: nat) -> Seq<u64> {
    Seq::new(count, |i: int| load_u64(data, offset + 8 * i, little))
}

/// The `count` unsigned rationals from `offset`: numerator, then
/// denominator.
pub open spec fn rationals_at(data: Seq<u8>, little: bool, offset: int, count: nat) -> Seq<
    Rational,
> {
    Seq::new(
        count,
        |i: int|
            Rational {
                num: load_u32(data, offset + 8 * i, little),
                denom: load_u32(data, offset + 8 * i + 4, little),
            },
    )
}

/// The `count` signed bytes from `offset`.
pub open spec fn sbytes_at(data: Seq<u8>, offset: int, count: nat) -> Seq<i8> {
    Seq::new(count, |i: int| signed8(data[offset + i]))
}

/// The `count` signed 16-bit numbers from `offset`.
pub open spec fn sshorts_at(data: Seq<u8>, little: bool, offset: int, count: nat) -> Seq<i16> {
    Seq::new(count, |i: int| signed16(load_u16(data, offset + 2 * i, little)))
}

/// The `count` signed 32-bit numbers from `offset`.
pub open spec fn slongs_at(data: Seq<u8>, little: bool, offset: int, count: nat) -> Seq<i32> {
    Seq::new(count, |i: int| signed32(load_u32(data, offset + 4 * i, little)))
}

/// The `count` signed rationals from `offset`: numerator, then denominator.
pub open spec fn srationals_at(data: Seq<u8>, little: bool, offset: int, count: nat) -> Seq<
    SRational,
> {
    Seq::new(
        count,
        |i: int|
            SRational {
                num: signed32(load_u32(data, offset + 8 * i, little)),
                denom: signed32(load_u32(data, offset + 8 * i + 4, little)),
            },
    )
}

/// The value of `count` units of the type with code `typ` that start at
/// `offset` in `data`.  It is meant for the twelve known types, and for a
/// range that lies in `data`.
pub open spec fn decoded(typ: u16, data: Seq<u8>, little: bool, offset: int, count: nat)
    -> ValueModel
    recommends
        unit_len(typ) > 0,
        0 <= offset,
        offset + unit_len(typ) * count <= data.len(),
{
    if typ == 1 {
        ValueModel::Byte(data.subrange(offset, offset + count))
    } else if typ == 2 {
        ValueModel::Ascii(ascii_strings(data.subrange(offset, offset + count)))
    } else if typ == 3 {
        ValueModel::Short(shorts_at(data, little, offset, count))
    } else if typ == 4 {
        ValueModel::Long(longs_at(data, little, offset, count))
    } else if typ == 5 {
        ValueModel::Rational(rationals_at(data, little, offset, count))
    } else if typ == 6 {
        ValueModel::SByte(sbytes_at(data, offset, count))
    } else if typ == 7 {
        ValueModel::Undefined(data.subrange(offset, offset + count))
    } else if typ == 8 {
        ValueModel::SShort(sshorts_at(data, little, offset, count))
    } else if typ == 9 {
        ValueModel::SLong(slongs_at(data, little, offset, count))
    } else if typ == 10 {
        ValueModel::SRational(srationals_at(data, little, offset, count))
    } else if typ == 11 {
        ValueModel::Float(longs_at(data, little, offset, count))
    } else {
        ValueModel::Double(doubles_at(data, little, offset, count))
    }
}

/// The unsigned integer that a value stands for, if the value is exactly
/// one unsigned integer of 8, 16 or 32 bits.
pub open spec fn single_uint(v: ValueModel) -> Option<u32> {
    match v {
        ValueModel::Byte(s) => if s.len() == 1 {
            Some(s[0] as u32)
        } else {
            None
        },
        ValueModel::Short(s) => if s.len() == 1 {
            Some(s[0] as u32)
        } else {
            None
        },
        ValueModel::Long(s) => if s.len() == 1 {
            Some(s[0])
        } else {
            None
        },
        _ => None,
    }
}

/// Computes [`unit_len`].
pub fn unit_size(typ: u16) -> (unit: usize)
    ensures
        unit == unit_len(typ),
{
    match typ {
        1 | 2 | 6 | 7 => 1,
        3 | 8 => 2,
        4 | 9 | 11 => 4,
        5 | 10 | 12 => 8,
        _ => 0,
    }
}

fn to_signed8(b: u8) -> (r: i8)
    ensures
        r == signed8(b),
{
    if b < 0x80 {
        b as i8
    } else {
        (b as i16 - 0x100) as i8
    }
}

fn to_signed16(n: u16) -> (r: i16)
    ensures
        r == signed16(n),
{
    if n < 0x8000 {
        n as i16
    } else {
        (n as i32 - 0x1_0000) as i16
    }
}

fn to_signed32(n: u32) -> (r: i32)
    ensures
        r == signed32(n),
{
    if n < 0x8000_0000 {
        n as i32
    } else {
        (n as i64 - 0x1_0000_0000) as i32
    }
}


fn parse_byte<'a>(data: &'a [u8], offset: usize, count: usize) -> (v: Value<'a>)
    requires
        offset + count <= data.len(),
    ensures
        v@ == ValueModel::Byte(data@.subrange(offset as int, offset + count)),
{
    let mut val: Vec<u8> = Vec::with_capacity(count);
    let mut i: usize = 0;
    while i < count
        invariant
            i <= count,
            offset + count <= data.len(),
            val@ =~= data@.subrange(offset as int, offset + i),
        decreases count - i,
    {
        val.push(data[offset + i]);
        i += 1;
    }
    Value::Byte(val)
}

fn parse_ascii<'a>(data: &'a [u8], offset: usize, count: usize) -> (v: Value<'a>)
    requires
        offset + count <= data.len(),
    ensures
        v@ == ValueModel::Ascii(ascii_strings(data@.subrange(offset as int, offset + count))),
{
    let mut parts: Vec<&'a [u8]> = Vec::new();
    let mut start: usize = offset;
    let mut i: usize = offset;
    proof {
        assert(slice_views(parts@).push(data@.subrange(start as int, i as int)) =~~= split_nul(
            data@.subrange(offset as int, i as int),
        ));
    }
    while i < offset + count
        invariant
            offset <= start <= i <= offset + count <= data.len(),
            slice_views(parts@).push(data@.subrange(start as int, i as int)) == split_nul(
                data@.subrange(offset as int, i as int),
            ),
        decreases offset + count - i,
    {
        let ghost done = slice_views(parts@);
        let ghost piece = data@.subrange(start as int, i as int);
        let ghost seen = data@.subrange(offset as int, i + 1);
        proof {
            assert(seen.drop_last() =~= data@.subrange(offset as int, i as int));
            assert(seen.last() == data@[i as int]);
            assert(done.push(piece).last() == piece);
            assert(done.push(piece).drop_last() =~= done);
        }
        if data[i] == 0 {
            parts.push(slice_subrange(data, start, i));
            start = i + 1;
            proof {
                assert(slice_views(parts@) =~~= done.push(piece));
                assert(data@.subrange(start as int, i + 1) =~= Seq::<u8>::empty());
                assert(split_nul(seen) == done.push(piece).push(Seq::empty()));
            }
        } else {
            proof {
                assert(data@.subrange(start as int, i + 1) =~= piece.push(data@[i as int]));
                assert(split_nul(seen) == done.push(piece.push(data@[i as int])));
            }
        }
        i += 1;
    }
    let ghost done = slice_views(parts@);
    let ghost piece = data@.subrange(start as int, i as int);
    proof {
        assert(done.push(piece).last() == piece);
        assert(done.push(piece).drop_last() =~= done);
    }
    if start < i {
        parts.push(slice_subrange(data, start, i));
        proof {
            assert(slice_views(parts@) =~~= done.push(piece));
        }
    }
    Value::Ascii(parts)
}

fn parse_short<'a, E: Endian>(data: &'a [u8], offset: usize, count: usize) -> (v: Value<'a>)
    requires
        offset + 2 * count <= data.len(),
    ensures
        v@ == ValueModel::Short(shorts_at(data@, E::little(), offset as int, count as nat)),
{
    let mut val: Vec<u16> = Vec::with_capacity(count);
    let mut i: usize = 0;
    while i < count
        invariant
            i <= count,
            offset + 2 * count <= data.len(),
            val@ =~= shorts_at(data@, E::little(), offset as int, i as nat),
        decreases count - i,
    {
        val.push(E::loadu16(data, offset + i * 2));
        i += 1;
    }
    Value::Short(val)
}

fn parse_long<'a, E: Endian>(data: &'a [u8], offset: usize, count: usize) -> (v: Value<'a>)
    requires
        offset + 4 * count <= data.len(),
    ensures
        v@ == ValueModel::Long(longs_at(data@, E::little(), offset as int, count as nat)),
{
    let mut val: Vec<u32> = Vec::with_capacity(count);
    let mut i: usize = 0;
    while i < count
        invariant
            i <= count,
            offset + 4 * count <= data.len(),
            val@ =~= longs_at(data@, E::little(), offset as int, i as nat),
        decreases count - i,
    {
        val.push(E::loadu32(data, offset + i * 4));
        i += 1;
    }
    Value::Long(val)
}

fn parse_rational<'a, E: Endian>(data: &'a [u8], offset: usize, count: usize) -> (v: Value<'a>)
    requires
        offset + 8 * count <= data.len(),
    ensures
        v@ == ValueModel::Rational(rationals_at(data@, E::little(), offset as int, count as nat)),
{
    let mut val: Vec<Rational> = Vec::with_capacity(count);
    let mut i: usize = 0;
    while i < count
        invariant
            i <= count,
            offset + 8 * count <= data.len(),
            val@ =~= rationals_at(data@, E::little(), offset as int, i as nat),
        decreases count - i,
    {
        let num: u32 = E::loadu32(data, offset + i * 8);
        let denom: u32 = E::loadu32(data, offset + i * 8 + 4);
        val.push(Rational { num, denom });
        i += 1;
    }
    Value::Rational(val)
}

fn parse_sbyte<'a>(data: &'a [u8], offset: usize, count: usize) -> (v: Value<'a>)
    requires
        offset + count <= data.len(),
    ensures
        v@ == ValueModel::SByte(sbytes_at(data@, offset as int, count as nat)),
{
    let mut val: Vec<i8> = Vec::with_capacity(count);
    let mut i: usize = 0;
    while i < count
        invariant
            i <= count,
            offset + count <= data.len(),
            val@ =~= sbytes_at(data@, offset as int, i as nat),
        decreases count - i,
    {
        val.push(to_signed8(data[offset + i]));
        i += 1;
    }
    Value::SByte(val)
}

fn parse_undefined<'a>(data: &'a [u8], offset: usize, count: usize) -> (v: Value<'a>)
    requires
        offset + count <= data.len(),
    ensures
        v@ == ValueModel::Undefined(data@.subrange(offset as int, offset + count)),
{
    Value::Undefined(slice_subrange(data, offset, offset + count))
}

fn parse_sshort<'a, E: Endian>(data: &'a [u8], offset: usize, count: usize) -> (v: Value<'a>)
    requires
        offset + 2 * count <= data.len(),
    ensures
        v@ == ValueModel::SShort(sshorts_at(data@, E::little(), offset as int, count as nat)),
{
    let mut val: Vec<i16> = Vec::with_capacity(count);
    let mut i: usize = 0;
    while i < count
        invariant
            i <= count,
            offset + 2 * count <= data.len(),
            val@ =~= sshorts_at(data@, E::little(), offset as int, i as nat),
        decreases count - i,
    {
        val.push(to_signed16(E::loadu16(data, offset + i * 2)));
        i += 1;
    }
    Value::SShort(val)
}

fn parse_slong<'a, E: Endian>(data: &'a [u8], offset: usize, count: usize) -> (v: Value<'a>)
    requires
        offset + 4 * count <= data.len(),
    ensures
        v@ == ValueModel::SLong(slongs_at(data@, E::little(), offset as int, count as nat)),
{
    let mut val: Vec<i32> = Vec::with_capacity(count);
    let mut i: usize = 0;
    while i < count
        invariant
            i <= count,
            offset + 4 * count <= data.len(),
            val@ =~= slongs_at(data@, E::little(), offset as int, i as nat),
        decreases count - i,
    {
        val.push(to_signed32(E::loadu32(data, offset + i * 4)));
        i += 1;
    }
    Value::SLong(val)
}

fn parse_srational<'a, E: Endian>(data: &'a [u8], offset: usize, count: usize) -> (v: Value<'a>)
    requires
        offset + 8 * count <= data.len(),
    ensures
        v@ == ValueModel::SRational(
            srationals_at(data@, E::little(), offset as int, count as nat),
        ),
{
    let mut val: Vec<SRational> = Vec::with_capacity(count);
    let mut i: usize = 0;
    while i < count
        invariant
            i <= count,
            offset + 8 * count <= data.len(),
            val@ =~= srationals_at(data@, E::little(), offset as int, i as nat),
        decreases count - i,
    {
        let num: i32 = to_signed32(E::loadu32(data, offset + i * 8));
        let denom: i32 = to_signed32(E::loadu32(data, offset + i * 8 + 4));
        val.push(SRational { num, denom });
        i += 1;
    }
    Value::SRational(val)
}

fn parse_float<'a, E: Endian>(data: &'a [u8], offset: usize, count: usize) -> (v: Value<'a>)
    requires
        offset + 4 * count <= data.len(),
    ensures
        v@ == ValueModel::Float(longs_at(data@, E::little(), offset as int, count as nat)),
{
    let mut val: Vec<u32> = Vec::with_capacity(count);
    let mut i: usize = 0;
    while i < count
        invariant
            i <= count,
            offset + 4 * count <= data.len(),
            val@ =~= longs_at(data@, E::little(), offset as int, i as nat),
        decreases count - i,
    {
        val.push(E::loadu32(data, offset + i * 4));
        i += 1;
    }
    Value::Float(val)
}

fn parse_double<'a, E: Endian>(data: &'a [u8], offset: usize, count: usize) -> (v: Value<'a>)
    requires
        offset + 8 * count <= data.len(),
    ensures
        v@ == ValueModel::Double(doubles_at(data@, E::little(), offset as int, count as nat)),
{
    let mut val: Vec<u64> = Vec::with_capacity(count);
    let mut i: usize = 0;
    while i < count
        invariant
            i <= count,
            offset + 8 * count <= data.len(),
            val@ =~= doubles_at(data@, E::little(), offset as int, i as nat),
        decreases count - i,
    {
        val.push(E::loadu64(data, offset + i * 8));
        i += 1;
    }
    Value::Double(val)
}

/// Reads `count` units of the type with code `typ` from `offset` in `data`,
/// in the byte order `E`.
pub fn decode<'a, E: Endian>(typ: u16, data: &'a [u8], offset: usize, count: usize) -> (v: Value<
    'a,
>)
    requires
        unit_len(typ) > 0,
        offset + unit_len(typ) * count <= data.len(),
    ensures
        v@ == decoded(typ, data@, E::little(), offset as int, count as nat),
{
    match typ {
        1 => parse_byte(data, offset, count),
        2 => parse_ascii(data, offset, count),
        3 => parse_short::<E>(data, offset, count),
        4 => parse_long::<E>(data, offset, count),
        5 => parse_rational::<E>(data, offset, count),
        6 => parse_sbyte(data, offset, count),
        7 => parse_undefined(data, offset, count),
        8 => parse_sshort::<E>(data, offset, count),
        9 => parse_slong::<E>(data, offset, count),
        10 => parse_srational::<E>(data, offset, count),
        11 => parse_float::<E>(data, offset, count),
        _ => parse_double::<E>(data, offset, count),
    }
}

impl<'a> Value<'a> {
    /// The unsigned integer that the value stands for, if it is exactly one
    /// unsigned integer of 8, 16 or 32 bits.
    pub fn get_uint(&self) -> (r: Option<u32>)
        ensures
            r == single_uint(self@),
    {
        match self {
            Value::Byte(v) => if v.len() == 1 {
                Some(v[0] as u32)
            } else {
                None
            },
            Value::Short(v) => if v.len() == 1 {
                Some(v[0] as u32)
            } else {
                None
            },
            Value::Long(v) => if v.len() == 1 {
                Some(v[0])
            } else {
                None
            },
            _ => None,
        }
    }
}

} // verus!
