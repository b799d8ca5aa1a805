//! The TIFF header and the walk through the image file directories.
//!
//! A directory is a 16-bit count, that many entries of 12 bytes, and the
//! 32-bit offset of the next directory.  An entry names a tag, a type and a
//! count, and holds the value in its last four bytes if the value fits
//! there, the offset of the value otherwise.  Three tags of the primary
//! context hold the offset of a directory of another context.
//!
//! What a buffer holds is defined by the spec functions [`exif_fields`],
//! [`tiff_fields`], [`ifd_walk`], [`entries_walk`] and [`entry_walk`]; the
//! parsers compute exactly that.

use crate::endian::{load_u16, load_u32, BigEndian, Endian, LittleEndian};
use crate::error::{format_error, Error, ErrorModel};
use crate::tag::{child_context, depth, Context, Tag};
use crate::value::{decode, decoded, single_uint, unit_len, unit_size, Value, ValueModel};
use vstd::prelude::*;

verus! {

/// The first two bytes of a big-endian structure, read as a big-endian
/// number.
pub const TIFF_BE: u16 = 0x4d4d;

/// The first two bytes of a little-endian structure, read as a big-endian
/// number.
pub const TIFF_LE: u16 = 0x4949;

/// The number that follows the byte order in every header.
pub const TIFF_FORTY_TWO: u16 = 0x002a;

/// A field: one entry of a directory, decoded.
#[derive(Debug, PartialEq, Eq)]
pub struct Field<'a> {
    /// The tag of this field.
    pub tag: Tag,
    /// False for the primary image and true for the thumbnail.
    pub thumbnail: bool,
    /// The value of this field.
    pub value: Value<'a>,
}

/// The mathematical value of a [`Field`].
pub struct FieldModel {
    pub tag: Tag,
    pub thumbnail: bool,
    pub value: ValueModel,
}

impl<'a> View for Field<'a> {
    type V = FieldModel;

    open spec fn view(&self) -> FieldModel {
        FieldModel { tag: self.tag, thumbnail: self.thumbnail, value: self.value@ }
    }
}

/// The mathematical values of the fields of `fields`, in order.
pub open spec fn field_views<'a>(fields: Seq<Field<'a>>) -> Seq<FieldModel> {
    Seq::new(fields.len(), |i: int| fields[i]@)
}

/// One entry of a directory as it stands in the buffer.
pub struct Entry {
    /// The tag number.
    pub tag: u16,
    /// The type code.
    pub typ: u16,
    /// The number of units of that type.
    pub count: u32,
    /// Where the entry's last four bytes, its value slot, start.
    pub slot: int,
}

/// Entry number `i` of the directory at `offset`.
pub open spec fn entry_at(data: Seq<u8>, little: bool, offset: int, i: int) -> Entry {
    let at = offset + 2 + 12 * i;
    Entry {
        tag: load_u16(data, at, little),
        typ: load_u16(data, at + 2, little),
        count: load_u32(data, at + 4, little),
        slot: at + 8,
    }
}

/// The number of bytes that `count` units of the type with code `typ` take.
pub open spec fn value_len(typ: u16, count: u32) -> nat {
    unit_len(typ) * (count as nat)
}

/// Where the bytes of a value start, for an entry whose value slot is at
/// `slot`: in the slot if they fit into four bytes, at the offset written in
/// the slot otherwise.
pub open spec fn value_start(data: Seq<u8>, little: bool, typ: u16, count: u32, slot: int) -> int {
    if value_len(typ, count) <= 4 {
        slot
    } else {
        load_u32(data, slot, little) as int
    }
}

/// The value of an entry of type `typ` and count `count` whose value slot is
/// at `slot`, or why the entry is refused.
///
/// A length that does not fit in `usize` is refused.  A value of an unknown
/// type is not looked for: it is reported with the offset of the slot, cut
/// to 32 bits.  Any other value must lie inside the buffer.
pub open spec fn entry_value(data: Seq<u8>, little: bool, typ: u16, count: u32, slot: int)
    -> Result<ValueModel, ErrorModel> {
    let start = value_start(data, little, typ, count, slot);
    if value_len(typ, count) > usize::MAX {
        Err(format_error("Invalid entry count"))
    } else if unit_len(typ) == 0 {
        Ok(ValueModel::Unknown(typ, count, (slot % 0x1_0000_0000) as u32))
    } else if data.len() < start || data.len() - start < value_len(typ, count) {
        Err(format_error("Truncated field value"))
    } else {
        Ok(decoded(typ, data, little, start, count as nat))
    }
}

/// A measure that falls with every directory that a walk opens from
/// another: from the 0th directory to the 1st, and from a directory to the
/// one that a pointer tag names.
pub open spec fn walk_rank(ctx: Context, thumbnail: bool) -> nat {
    depth(ctx) + if thumbnail {
        0nat
    } else {
        2nat
    }
}

/// What a walk finds: the fields it meets, in order, and the error that
/// ends it, if one does.
pub struct Walk {
    pub fields: Seq<FieldModel>,
    pub error: Option<ErrorModel>,
}

/// The walk that meets nothing and ends well.
pub open spec fn nothing() -> Walk {
    Walk { fields: Seq::empty(), error: None }
}

/// The walk that ends at once, for the rule named by `reason`.
pub open spec fn refused(reason: &str) -> Walk {
    Walk { fields: Seq::empty(), error: Some(format_error(reason)) }
}

/// The walk `first` and then, unless `first` ends with an error, the walk
/// `second`.
pub open spec fn followed_by(first: Walk, second: Walk) -> Walk {
    if first.error is Some {
        first
    } else {
        Walk { fields: first.fields + second.fields, error: second.error }
    }
}

/// The result of a walk for a caller that wants all the fields or none.
pub open spec fn outcome(w: Walk) -> Result<Seq<FieldModel>, ErrorModel> {
    match w.error {
        None => Ok(w.fields),
        Some(err) => Err(err),
    }
}

/// The walk through the entry `e` of a directory of context `ctx`: through
/// the directory it points to if its tag is a pointer tag; otherwise the
/// entry is one field.
pub open spec fn entry_walk(
    data: Seq<u8>,
    little: bool,
    e: Entry,
    ctx: Context,
    thumbnail: bool,
) -> Walk
    decreases walk_rank(ctx, thumbnail), 0nat, 0nat,
{
    match entry_value(data, little, e.typ, e.count, e.slot) {
        Err(err) => Walk { fields: Seq::empty(), error: Some(err) },
        Ok(value) => match child_context(Tag(ctx, e.tag)) {
            Some(child) => match single_uint(value) {
                None => refused("Invalid pointer"),
                Some(p) => ifd_walk(data, little, p as int, child, thumbnail),
            },
            None => Walk {
                fields: seq![FieldModel { tag: Tag(ctx, e.tag), thumbnail, value }],
                error: None,
            },
        },
    }
}

/// The walk through the first `k` entries of the directory at `offset`, in
/// their order.  It ends with the first entry that is refused.
pub open spec fn entries_walk(
    data: Seq<u8>,
    little: bool,
    offset: int,
    ctx: Context,
    thumbnail: bool,
    k: nat,
) -> Walk
    decreases walk_rank(ctx, thumbnail), 1nat, k,
{
    if k == 0 {
        nothing()
    } else {
        followed_by(
            entries_walk(data, little, offset, ctx, thumbnail, (k - 1) as nat),
            entry_walk(data, little, entry_at(data, little, offset, k - 1), ctx, thumbnail),
        )
    }
}

/// The number of entries that the directory at `offset` declares.
pub open spec fn entry_count(data: Seq<u8>, little: bool, offset: int) -> nat {
    load_u16(data, offset, little) as nat
}

/// The offset of the directory that follows the one at `offset`; 0 if none
/// does.
pub open spec fn next_offset(data: Seq<u8>, little: bool, offset: int) -> u32 {
    load_u32(data, offset + 2 + 12 * entry_count(data, little, offset), little)
}

/// The walk through the directory at `offset`: through its entries, and
/// then through the directory that it names as the next one.
///
/// The count must lie in the buffer, then the entries.  The offset of the
/// next directory is looked for after the entries are walked.  Only the 0th
/// directory may name a next one, which is walked as the 1st: the primary
/// context with `thumbnail` false.
pub open spec fn ifd_walk(
    data: Seq<u8>,
    little: bool,
    offset: int,
    ctx: Context,
    thumbnail: bool,
) -> Walk
    decreases walk_rank(ctx, thumbnail), 2nat, 0nat,
{
    let n = entry_count(data, little, offset);
    if data.len() < offset || data.len() - offset < 2 {
        refused("Truncated IFD count")
    } else if data.len() - offset - 2 < 12 * n {
        refused("Truncated IFD")
    } else {
        followed_by(
            entries_walk(data, little, offset, ctx, thumbnail, n),
            if data.len() - offset - 2 - 12 * n < 4 {
                refused("Truncated next IFD offset")
            } else if next_offset(data, little, offset) == 0 {
                nothing()
            } else if ctx != Context::Tiff || thumbnail {
                refused("Unexpected next IFD")
            } else {
                ifd_walk(
                    data,
                    little,
                    next_offset(data, little, offset) as int,
                    Context::Tiff,
                    true,
                )
            },
        )
    }
}

/// The fields of a structure whose byte order is known: the marker 42 must
/// follow the byte order; the offset of the 0th directory comes next, and
/// the walk from there must end well.
pub open spec fn tiff_fields(data: Seq<u8>, little: bool) -> Result<Seq<FieldModel>, ErrorModel> {
    if load_u16(data, 2, little) != TIFF_FORTY_TWO {
        Err(format_error("Invalid forty two"))
    } else {
        outcome(ifd_walk(data, little, load_u32(data, 4, little) as int, Context::Tiff, false))
    }
}

/// The fields of a buffer and whether it is little-endian, or why the buffer
/// is refused.
pub open spec fn exif_fields(data: Seq<u8>) -> Result<(Seq<FieldModel>, bool), ErrorModel> {
    if data.len() < 8 {
        Err(format_error("Truncated TIFF header"))
    } else if load_u16(data, 0, false) == TIFF_BE {
        match tiff_fields(data, false) {
            Ok(fields) => Ok((fields, false)),
            Err(err) => Err(err),
        }
    } else if load_u16(data, 0, false) == TIFF_LE {
        match tiff_fields(data, true) {
            Ok(fields) => Ok((fields, true)),
            Err(err) => Err(err),
        }
    } else {
        Err(format_error("Invalid TIFF byte order"))
    }
}

/// What a parser that was to make the walk `w` has done: it has appended
/// the fields of `w` to the list, and returns the error of `w` if there is
/// one.
pub open spec fn walked(
    before: Seq<FieldModel>,
    after: Seq<FieldModel>,
    r: Result<(), Error>,
    w: Walk,
) -> bool {
    &&& after == before + w.fields
    &&& match w.error {
        None => r is Ok,
        Some(err) => r matches Err(e) && e@ == err,
    }
}

/// Once an entry is refused, the entries after it change nothing.
pub proof fn lemma_entries_error_stays(
    data: Seq<u8>,
    little: bool,
    offset: int,
    ctx: Context,
    thumbnail: bool,
    k: nat,
    n: nat,
)
    requires
        k <= n,
        entries_walk(data, little, offset, ctx, thumbnail, k).error is Some,
    ensures
        entries_walk(data, little, offset, ctx, thumbnail, n) == entries_walk(
            data,
            little,
            offset,
            ctx,
            thumbnail,
            k,
        ),
    decreases n,
{
    if k < n {
        lemma_entries_error_stays(data, little, offset, ctx, thumbnail, k, (n - 1) as nat);
    }
}

/// The number of bytes that `count` units of `unit` bytes take, if that
/// number fits in `usize`.
pub fn field_len(unit: usize, count: usize) -> (r: Result<usize, Error>)
    ensures
        unit * count <= usize::MAX ==> r == Ok::<usize, Error>((unit * count) as usize),
        unit * count > usize::MAX ==> (r matches Err(e) && e@ == format_error(
            "Invalid entry count",
        )),
{
    match unit.checked_mul(count) {
        Some(len) => Ok(len),
        None => Err(Error::InvalidFormat("Invalid entry count")),
    }
}

/// Reads the value of an entry of type `typ` and count `count` whose value
/// slot is at `slot`.
pub fn parse_value<'a, E: Endian>(data: &'a [u8], typ: u16, count: u32, slot: usize) -> (r:
    Result<Value<'a>, Error>)
    requires
        slot + 4 <= data.len(),
    ensures
        match entry_value(data@, E::little(), typ, count, slot as int) {
            Ok(value) => r matches Ok(v) && v@ == value,
            Err(err) => r matches Err(e) && e@ == err,
        },
{
    let unit: usize = unit_size(typ);
    let cnt: usize = count as usize;
    let len: usize = match field_len(unit, cnt) {
        Ok(len) => len,
        Err(e) => {
            return Err(e);
        },
    };
    if unit == 0 {
        Ok(Value::Unknown(typ, count, (slot as u64 % 0x1_0000_0000) as u32))
    } else if len <= 4 {
        Ok(decode::<E>(typ, data, slot, cnt))
    } else {
        let start: usize = E::loadu32(data, slot) as usize;
        if data.len() < start || data.len() - start < len {
            return Err(Error::InvalidFormat("Truncated field value"));
        }
        Ok(decode::<E>(typ, data, start, cnt))
    }
}

/// Reads entry number `i` of the directory at `offset`, of context `ctx`.
/// If its tag is a pointer tag, walks the directory that it names;
/// otherwise appends the entry to `fields` as one field.
pub fn parse_entry<'a, E: Endian>(
    fields: &mut Vec<Field<'a>>,
    data: &'a [u8],
    offset: usize,
    i: usize,
    ctx: Context,
    thumbnail: bool,
) -> (r: Result<(), Error>)
    requires
        offset + 2 + 12 * (i + 1) <= data.len(),
    ensures
        walked(
            field_views(old(fields)@),
            field_views(final(fields)@),
            r,
            entry_walk(
                data@,
                E::little(),
                entry_at(data@, E::little(), offset as int, i as int),
                ctx,
                thumbnail,
            ),
        ),
    decreases walk_rank(ctx, thumbnail), 0nat,
{
    let ghost before = field_views(fields@);
    let at: usize = offset + 2 + i * 12;
    let tag: u16 = E::loadu16(data, at);
    let typ: u16 = E::loadu16(data, at + 2);
    let cnt: u32 = E::loadu32(data, at + 4);
    let val = match parse_value::<E>(data, typ, cnt, at + 8) {
        Ok(val) => val,
        Err(err) => {
            proof {
                assert(before + Seq::<FieldModel>::empty() =~= before);
            }
            return Err(err);
        },
    };
    let tag = Tag(ctx, tag);
    match tag.child_context() {
        Some(child) => parse_child_ifd::<E>(fields, data, &val, child, thumbnail),
        None => {
            let field = Field { tag, thumbnail, value: val };
            let ghost model = field@;
            fields.push(field);
            proof {
                assert(field_views(fields@) =~= before + seq![model]);
            }
            Ok(())
        },
    }
}

/// Walks the directory at `offset` and every directory that it leads to,
/// and appends the fields to `fields` in the order in which they are met.
/// The first rule that the buffer breaks ends the walk; the fields met
/// until then stay in `fields`.
///
/// `ctx` is the context of the directory; `thumbnail` is false for the 0th
/// directory and what it points to, true for the 1st.
pub fn parse_ifd<'a, E: Endian>(
    fields: &mut Vec<Field<'a>>,
    data: &'a [u8],
    offset: usize,
    ctx: Context,
    thumbnail: bool,
) -> (r: Result<(), Error>)
    ensures
        walked(
            field_views(old(fields)@),
            field_views(final(fields)@),
            r,
            ifd_walk(data@, E::little(), offset as int, ctx, thumbnail),
        ),
    decreases walk_rank(ctx, thumbnail), 1nat,
{
    let ghost before = field_views(fields@);
    let ghost little = E::little();
    proof {
        assert(before + Seq::<FieldModel>::empty() =~= before);
    }
    if data.len() < offset || data.len() - offset < 2 {
        return Err(Error::InvalidFormat("Truncated IFD count"));
    }
    let count: usize = E::loadu16(data, offset) as usize;
    if data.len() - offset - 2 < count * 12 {
        return Err(Error::InvalidFormat("Truncated IFD"));
    }
    let mut i: usize = 0;
    while i < count
        invariant
            i <= count,
            before == field_views(old(fields)@),
            count == entry_count(data@, little, offset as int),
            little == E::little(),
            offset + 2 + count * 12 <= data.len(),
            entries_walk(data@, little, offset as int, ctx, thumbnail, i as nat).error is None,
            field_views(fields@) == before + entries_walk(
                data@,
                little,
                offset as int,
                ctx,
                thumbnail,
                i as nat,
            ).fields,
        decreases count - i,
    {
        let ghost done = entries_walk(data@, little, offset as int, ctx, thumbnail, i as nat);
        let ghost more = entry_walk(
            data@,
            little,
            entry_at(data@, little, offset as int, i as int),
            ctx,
            thumbnail,
        );
        let r = parse_entry::<E>(fields, data, offset, i, ctx, thumbnail);
        proof {
            assert(before + done.fields + more.fields =~= before + (done.fields + more.fields));
        }
        match r {
            Ok(()) => {},
            Err(err) => {
                proof {
                    lemma_entries_error_stays(
                        data@,
                        little,
                        offset as int,
                        ctx,
                        thumbnail,
                        (i + 1) as nat,
                        count as nat,
                    );
                }
                return Err(err);
            },
        }
        i += 1;
    }
    let ghost done = entries_walk(data@, little, offset as int, ctx, thumbnail, count as nat);
    proof {
        assert(before + done.fields + Seq::<FieldModel>::empty() =~= before + done.fields);
        assert(done.fields + Seq::<FieldModel>::empty() =~= done.fields);
    }
    if data.len() - offset - 2 - count * 12 < 4 {
        return Err(Error::InvalidFormat("Truncated next IFD offset"));
    }
    let next: usize = E::loadu32(data, offset + 2 + count * 12) as usize;
    if next == 0 {
        return Ok(());
    }
    if ctx != Context::Tiff || thumbnail {
        return Err(Error::InvalidFormat("Unexpected next IFD"));
    }
    let r = parse_ifd::<E>(fields, data, next, Context::Tiff, true);
    proof {
        let more = ifd_walk(data@, little, next as int, Context::Tiff, true);
        assert(before + done.fields + more.fields =~= before + (done.fields + more.fields));
    }
    r
}

/// Walks the directory that a pointer tag names.  `pointer` is the value of
/// the entry with that tag; it must be exactly one unsigned integer, which
/// is the offset of the directory.  `ctx` is the context of that directory.
pub fn parse_child_ifd<'a, E: Endian>(
    fields: &mut Vec<Field<'a>>,
    data: &'a [u8],
    pointer: &Value<'a>,
    ctx: Context,
    thumbnail: bool,
) -> (r: Result<(), Error>)
    ensures
        walked(
            field_views(old(fields)@),
            field_views(final(fields)@),
            r,
            match single_uint(pointer@) {
                None => refused("Invalid pointer"),
                Some(p) => ifd_walk(data@, E::little(), p as int, ctx, thumbnail),
            },
        ),
    decreases walk_rank(ctx, thumbnail), 2nat,
{
    match pointer.get_uint() {
        None => {
            proof {
                assert(field_views(fields@) + Seq::<FieldModel>::empty() =~= field_views(
                    fields@,
                ));
            }
            Err(Error::InvalidFormat("Invalid pointer"))
        },
        Some(p) => parse_ifd::<E>(fields, data, p as usize, ctx, thumbnail),
    }
}

/// Parses a structure whose byte order `E` is known from its first two
/// bytes: looks for the marker 42 and walks the directories from the 0th.
pub fn parse_exif_sub<'a, E: Endian>(data: &'a [u8]) -> (r: Result<Vec<Field<'a>>, Error>)
    requires
        data.len() >= 8,
    ensures
        match tiff_fields(data@, E::little()) {
            Ok(fields) => r matches Ok(v) && field_views(v@) == fields,
            Err(err) => r matches Err(e) && e@ == err,
        },
{
    if E::loadu16(data, 2) != TIFF_FORTY_TWO {
        return Err(Error::InvalidFormat("Invalid forty two"));
    }
    let ifd_offset: usize = E::loadu32(data, 4) as usize;
    let mut fields: Vec<Field<'a>> = Vec::new();
    let ghost none = field_views(fields@);
    let ghost w = ifd_walk(data@, E::little(), ifd_offset as int, Context::Tiff, false);
    match parse_ifd::<E>(&mut fields, data, ifd_offset, Context::Tiff, false) {
        Ok(()) => {
            proof {
                assert(none + w.fields =~= w.fields);
            }
            Ok(fields)
        },
        Err(e) => Err(e),
    }
}

/// Parses the Exif attributes in the TIFF format.
///
/// Returns the fields in the order in which the walk through the
/// directories meets them, and whether the data is little-endian.  The
/// first rule that the buffer breaks ends the parse with its error; no
/// field is returned then.
pub fn parse_exif<'a>(data: &'a [u8]) -> (r: Result<(Vec<Field<'a>>, bool), Error>)
    ensures
        match exif_fields(data@) {
            Ok((fields, little)) => r matches Ok((v, l)) && field_views(v@) == fields && l
                == little,
            Err(err) => r matches Err(e) && e@ == err,
        },
        data.len() < 8 ==> (r matches Err(e) && e@ == format_error("Truncated TIFF header")),
        data.len() >= 8 && !(data[0] == 0x49 && data[1] == 0x49) && !(data[0] == 0x4d && data[1]
            == 0x4d) ==> (r matches Err(e) && e@ == format_error("Invalid TIFF byte order")),
{
    if data.len() < 8 {
        return Err(Error::InvalidFormat("Truncated TIFF header"));
    }
    let order: u16 = BigEndian::loadu16(data, 0);
    if order == TIFF_BE {
        match parse_exif_sub::<BigEndian>(data) {
            Ok(v) => Ok((v, false)),
            Err(e) => Err(e),
        }
    } else if order == TIFF_LE {
        match parse_exif_sub::<LittleEndian>(data) {
            Ok(v) => Ok((v, true)),
            Err(e) => Err(e),
        }
    } else {
        Err(Error::InvalidFormat("Invalid TIFF byte order"))
    }
}

/// Whether `buf` starts with the four bytes of one of the two headers.
pub open spec fn has_tiff_signature(buf: Seq<u8>) -> bool {
    buf.len() >= 4 && (buf.subrange(0, 4) == seq![0x4du8, 0x4du8, 0x00u8, 0x2au8] || buf.subrange(
        0,
        4,
    ) == seq![0x49u8, 0x49u8, 0x2au8, 0x00u8])
}

/// Tells whether `buf` starts with the signature of a TIFF structure in
/// either byte order.  Nothing after the first four bytes is looked at.
pub fn is_tiff(buf: &[u8]) -> (b: bool)
    ensures
        b == has_tiff_signature(buf@),
{
    if buf.len() < 4 {
        return false;
    }
    proof {
        let head = buf@.subrange(0, 4);
        let be = seq![0x4du8, 0x4du8, 0x00u8, 0x2au8];
        let le = seq![0x49u8, 0x49u8, 0x2au8, 0x00u8];
        assert(head == be <==> (head[0] == 0x4d && head[1] == 0x4d && head[2] == 0x00 && head[3]
            == 0x2a)) by {
            if head[0] == 0x4d && head[1] == 0x4d && head[2] == 0x00 && head[3] == 0x2a {
                assert(head =~= be);
            } else {
                assert(be[0] == 0x4d && be[1] == 0x4d && be[2] == 0x00 && be[3] == 0x2a);
            }
        }
        assert(head == le <==> (head[0] == 0x49 && head[1] == 0x49 && head[2] == 0x2a && head[3]
            == 0x00)) by {
            if head[0] == 0x49 && head[1] == 0x49 && head[2] == 0x2a && head[3] == 0x00 {
                assert(head =~= le);
            } else {
                assert(le[0] == 0x49 && le[1] == 0x49 && le[2] == 0x2a && le[3] == 0x00);
            }
        }
    }
    (buf[0] == 0x4d && buf[1] == 0x4d && buf[2] == 0x00 && buf[3] == 0x2a) || (buf[0] == 0x49
        && buf[1] == 0x49 && buf[2] == 0x2a && buf[3] == 0x00)
}

} // verus!
