//! What holds of every buffer, proved from the definitions of the walk.
//!
//! The statements speak of [`ifd_walk`], [`entries_walk`] and
//! [`entry_walk`], the functions by which the parsers' contracts say what
//! they append and return, so each of them holds of what the parsers do.

use crate::endian::{load_u16, load_u32};
use crate::error::format_error;
use crate::tag::{child_context, depth, lemma_child_is_deeper, Context, Tag};
use crate::tiff::{
    entries_walk, entry_at, entry_count, entry_value, entry_walk, exif_fields, ifd_walk,
    next_offset, nothing, refused, value_len, value_start, walk_rank, Entry, FieldModel, Walk,
    TIFF_FORTY_TWO,
};
use crate::value::{single_uint, unit_len, ValueModel};
use vstd::prelude::*;

verus! {

/// Whether `f` can come from the entries of a directory of context `ctx`
/// that is walked with the flag `thumbnail`: it carries that flag, its tag
/// is no pointer tag, and its context is `ctx` or one that a pointer tag of
/// `ctx` leads to.
pub open spec fn emitted_in(f: FieldModel, ctx: Context, thumbnail: bool) -> bool {
    &&& f.thumbnail == thumbnail
    &&& child_context(f.tag) is None
    &&& (f.tag.0 == ctx || depth(f.tag.0) < depth(ctx))
}

/// Whether [`emitted_in`] holds of every field of `fields`.
pub open spec fn all_emitted_in(fields: Seq<FieldModel>, ctx: Context, thumbnail: bool) -> bool {
    forall|j: int| 0 <= j < fields.len() ==> emitted_in(#[trigger] fields[j], ctx, thumbnail)
}

/// A length that does not fit in `usize` is never cut short: the entry is
/// refused for its count, whatever its tag and wherever it stands.
pub proof fn lemma_overflowing_length_refused(
    data: Seq<u8>,
    little: bool,
    e: Entry,
    ctx: Context,
    thumbnail: bool,
)
    requires
        value_len(e.typ, e.count) > usize::MAX,
    ensures
        entry_value(data, little, e.typ, e.count, e.slot) == Err::<ValueModel, _>(
            format_error("Invalid entry count"),
        ),
        entry_walk(data, little, e, ctx, thumbnail) == refused("Invalid entry count"),
{
}

/// An entry of an unknown type whose tag is no pointer tag gives exactly one
/// field.  Its value names the type code, the count and the offset of the
/// value slot (the offset itself where it fits in 32 bits); whether the slot
/// holds an offset, and where that would lead, plays no part.
pub proof fn lemma_unknown_type_gives_one_field(
    data: Seq<u8>,
    little: bool,
    e: Entry,
    ctx: Context,
    thumbnail: bool,
)
    requires
        unit_len(e.typ) == 0,
        child_context(Tag(ctx, e.tag)) is None,
    ensures
        entry_walk(data, little, e, ctx, thumbnail) == (Walk {
            fields: seq![
                FieldModel {
                    tag: Tag(ctx, e.tag),
                    thumbnail,
                    value: ValueModel::Unknown(e.typ, e.count, (e.slot % 0x1_0000_0000) as u32),
                },
            ],
            error: None,
        }),
        0 <= e.slot < 0x1_0000_0000 ==> (e.slot % 0x1_0000_0000) as u32 == e.slot,
{
    assert(value_len(e.typ, e.count) == 0) by (nonlinear_arith)
        requires
            unit_len(e.typ) == 0,
            value_len(e.typ, e.count) == unit_len(e.typ) * (e.count as nat),
    ;
}

/// If the walk through the first `k` entries of a directory ends well, the
/// walk through each of them does.
pub proof fn lemma_accepted_entries(
    data: Seq<u8>,
    little: bool,
    offset: int,
    ctx: Context,
    thumbnail: bool,
    k: nat,
    i: int,
)
    requires
        entries_walk(data, little, offset, ctx, thumbnail, k).error is None,
        0 <= i < k,
    ensures
        entry_walk(data, little, entry_at(data, little, offset, i), ctx, thumbnail).error is None,
    decreases k,
{
    if i < k - 1 {
        lemma_accepted_entries(data, little, offset, ctx, thumbnail, (k - 1) as nat, i);
    }
}

/// No accepted buffer makes the walk look outside the buffer.
///
/// If the walk through the directory at `offset` ends well, then the
/// directory lies in the buffer with its count, its entries and the offset
/// of the next directory; the value of each entry of a known type lies in
/// the buffer, be it in the value slot or at the offset that the slot
/// holds; and the walk through each directory that an entry points to ends
/// well in its turn, so that the same holds of it.
pub proof fn lemma_accepted_directory_in_bounds(
    data: Seq<u8>,
    little: bool,
    offset: int,
    ctx: Context,
    thumbnail: bool,
    i: int,
)
    requires
        0 <= offset,
        ifd_walk(data, little, offset, ctx, thumbnail).error is None,
        0 <= i < entry_count(data, little, offset),
    ensures
        offset + 2 + 12 * entry_count(data, little, offset) + 4 <= data.len(),
        ({
            let e = entry_at(data, little, offset, i);
            let start = value_start(data, little, e.typ, e.count, e.slot);
            &&& entry_value(data, little, e.typ, e.count, e.slot) is Ok
            &&& unit_len(e.typ) > 0 ==> 0 <= start && start + value_len(e.typ, e.count)
                <= data.len()
            &&& child_context(Tag(ctx, e.tag)) matches Some(child) ==> (single_uint(
                entry_value(data, little, e.typ, e.count, e.slot)->Ok_0,
            ) matches Some(p) && ifd_walk(data, little, p as int, child, thumbnail).error is None)
        }),
{
    let n = entry_count(data, little, offset);
    lemma_accepted_entries(data, little, offset, ctx, thumbnail, n, i);
}

/// Only the 0th directory has a successor.
///
/// If the walk through the directory at `offset` ends well and the
/// directory names a next one, then it was walked as the 0th directory, and
/// the walk through the next one, as the 1st, ends well.
pub proof fn lemma_accepted_next_directory(
    data: Seq<u8>,
    little: bool,
    offset: int,
    ctx: Context,
    thumbnail: bool,
)
    requires
        ifd_walk(data, little, offset, ctx, thumbnail).error is None,
        next_offset(data, little, offset) != 0,
    ensures
        ctx == Context::Tiff,
        !thumbnail,
        ifd_walk(
            data,
            little,
            next_offset(data, little, offset) as int,
            Context::Tiff,
            true,
        ).error is None,
{
}

/// How the walk through an entry ends does not depend on the thumbnail
/// flag.
pub proof fn lemma_entry_end_without_flag(data: Seq<u8>, little: bool, e: Entry, ctx: Context)
    ensures
        entry_walk(data, little, e, ctx, false).error == entry_walk(
            data,
            little,
            e,
            ctx,
            true,
        ).error,
    decreases depth(ctx), 0nat, 0nat,
{
    if let Ok(value) = entry_value(data, little, e.typ, e.count, e.slot) {
        if let Some(child) = child_context(Tag(ctx, e.tag)) {
            if let Some(p) = single_uint(value) {
                lemma_child_is_deeper(Tag(ctx, e.tag));
                lemma_directory_end_without_flag(data, little, p as int, child);
            }
        }
    }
}

/// How the walk through the first `k` entries of a directory ends does not
/// depend on the thumbnail flag.
pub proof fn lemma_entries_end_without_flag(
    data: Seq<u8>,
    little: bool,
    offset: int,
    ctx: Context,
    k: nat,
)
    ensures
        entries_walk(data, little, offset, ctx, false, k).error == entries_walk(
            data,
            little,
            offset,
            ctx,
            true,
            k,
        ).error,
    decreases depth(ctx), 1nat, k,
{
    if k > 0 {
        lemma_entries_end_without_flag(data, little, offset, ctx, (k - 1) as nat);
        lemma_entry_end_without_flag(data, little, entry_at(data, little, offset, k - 1), ctx);
    }
}

/// How the walk through a directory of a context other than the primary one
/// ends does not depend on the thumbnail flag.
pub proof fn lemma_directory_end_without_flag(
    data: Seq<u8>,
    little: bool,
    offset: int,
    ctx: Context,
)
    requires
        ctx != Context::Tiff,
    ensures
        ifd_walk(data, little, offset, ctx, false).error == ifd_walk(
            data,
            little,
            offset,
            ctx,
            true,
        ).error,
    decreases depth(ctx), 2nat, 0nat,
{
    lemma_entries_end_without_flag(data, little, offset, ctx, entry_count(data, little, offset));
}

/// A chain of directories cannot run in a circle.
///
/// If the 0th directory lies in the buffer, the walk through its entries
/// ends well and the directory names itself as the next one, then the walk
/// comes to it a second time, as the 1st directory, and ends there, refusing
/// the link that it finds again.
pub proof fn lemma_directory_after_itself_refused(data: Seq<u8>, little: bool, offset: int)
    requires
        0 <= offset,
        offset + 2 + 12 * entry_count(data, little, offset) + 4 <= data.len(),
        entries_walk(
            data,
            little,
            offset,
            Context::Tiff,
            false,
            entry_count(data, little, offset),
        ).error is None,
        next_offset(data, little, offset) != 0,
        next_offset(data, little, offset) == offset,
    ensures
        ifd_walk(data, little, offset, Context::Tiff, true).error == Some(
            format_error("Unexpected next IFD"),
        ),
        ifd_walk(data, little, offset, Context::Tiff, false).error == Some(
            format_error("Unexpected next IFD"),
        ),
{
    let n = entry_count(data, little, offset);
    lemma_entries_end_without_flag(data, little, offset, Context::Tiff, n);
}

/// The fields that the walk through an entry meets come from the entry's
/// directory or from the one it points to: see [`emitted_in`].
pub proof fn lemma_entry_emits(
    data: Seq<u8>,
    little: bool,
    e: Entry,
    ctx: Context,
    thumbnail: bool,
)
    ensures
        all_emitted_in(entry_walk(data, little, e, ctx, thumbnail).fields, ctx, thumbnail),
    decreases walk_rank(ctx, thumbnail), 0nat, 0nat,
{
    if let Ok(value) = entry_value(data, little, e.typ, e.count, e.slot) {
        if let Some(child) = child_context(Tag(ctx, e.tag)) {
            if let Some(p) = single_uint(value) {
                lemma_child_is_deeper(Tag(ctx, e.tag));
                lemma_directory_emits(data, little, p as int, child, thumbnail);
            }
        }
    }
}

/// The fields that the walk through the first `k` entries of a directory
/// meets carry the flag of the walk and no pointer tag: see [`emitted_in`].
pub proof fn lemma_entries_emit(
    data: Seq<u8>,
    little: bool,
    offset: int,
    ctx: Context,
    thumbnail: bool,
    k: nat,
)
    ensures
        all_emitted_in(
            entries_walk(data, little, offset, ctx, thumbnail, k).fields,
            ctx,
            thumbnail,
        ),
    decreases walk_rank(ctx, thumbnail), 1nat, k,
{
    if k > 0 {
        lemma_entries_emit(data, little, offset, ctx, thumbnail, (k - 1) as nat);
        lemma_entry_emits(data, little, entry_at(data, little, offset, k - 1), ctx, thumbnail);
    }
}

/// Pointer tags are followed, never reported.
///
/// Take the walk through a directory other than the 0th, however it ends.
/// None of the fields it meets has a pointer tag; each has the flag that
/// the directory is walked with; and each has the context of the
/// directory or, where the directory is of the primary context, that of a
/// directory that one of its entries points to.
pub proof fn lemma_directory_emits(
    data: Seq<u8>,
    little: bool,
    offset: int,
    ctx: Context,
    thumbnail: bool,
)
    requires
        ctx != Context::Tiff || thumbnail,
    ensures
        all_emitted_in(ifd_walk(data, little, offset, ctx, thumbnail).fields, ctx, thumbnail),
        ctx != Context::Tiff ==> forall|j: int|
            0 <= j < ifd_walk(data, little, offset, ctx, thumbnail).fields.len() ==> (
            #[trigger] ifd_walk(data, little, offset, ctx, thumbnail).fields[j]).tag.0 == ctx,
    decreases walk_rank(ctx, thumbnail), 2nat, 0nat,
{
    lemma_entries_emit(data, little, offset, ctx, thumbnail, entry_count(data, little, offset));
}

/// An entry with a pointer tag stands for the directory it points to.
///
/// If the value of the entry is one unsigned integer, the walk through the
/// entry is the walk through the directory at that offset, in the context
/// that the tag leads to and with the flag of the entry's directory.  Every
/// field that it meets has that context and that flag, and the entry itself
/// is not among them: none has a pointer tag.
pub proof fn lemma_pointer_entry_is_followed(
    data: Seq<u8>,
    little: bool,
    e: Entry,
    ctx: Context,
    thumbnail: bool,
)
    requires
        child_context(Tag(ctx, e.tag)) is Some,
        entry_value(data, little, e.typ, e.count, e.slot) is Ok,
        single_uint(entry_value(data, little, e.typ, e.count, e.slot)->Ok_0) is Some,
    ensures
        ({
            let child = child_context(Tag(ctx, e.tag))->Some_0;
            let p = single_uint(entry_value(data, little, e.typ, e.count, e.slot)->Ok_0)->Some_0;
            let fields = entry_walk(data, little, e, ctx, thumbnail).fields;
            &&& entry_walk(data, little, e, ctx, thumbnail) == ifd_walk(
                data,
                little,
                p as int,
                child,
                thumbnail,
            )
            &&& forall|j: int|
                0 <= j < fields.len() ==> (#[trigger] fields[j]).tag.0 == child
                    && fields[j].thumbnail == thumbnail && child_context(fields[j].tag) is None
        }),
{
    let child = child_context(Tag(ctx, e.tag))->Some_0;
    let p = single_uint(entry_value(data, little, e.typ, e.count, e.slot)->Ok_0)->Some_0;
    lemma_child_is_deeper(Tag(ctx, e.tag));
    lemma_directory_emits(data, little, p as int, child, thumbnail);
}

/// The fields of the primary image come first, those of the thumbnail
/// after them.
///
/// If the walk from the 0th directory ends well, what it has met is made of
/// two parts.  The first holds the fields of the 0th directory and of the
/// directories that it points to: each has the flag false.  The second
/// holds the fields of the 1st directory and of those that it points to, if
/// there is a 1st directory: each has the flag true.  No field of either
/// part has a pointer tag.
pub proof fn lemma_primary_then_thumbnail(data: Seq<u8>, little: bool, offset: int)
    requires
        ifd_walk(data, little, offset, Context::Tiff, false).error is None,
    ensures
        ({
            let fields = ifd_walk(data, little, offset, Context::Tiff, false).fields;
            let zeroth = entries_walk(
                data,
                little,
                offset,
                Context::Tiff,
                false,
                entry_count(data, little, offset),
            );
            let next = next_offset(data, little, offset);
            let first = if next == 0 {
                nothing()
            } else {
                ifd_walk(data, little, next as int, Context::Tiff, true)
            };
            &&& zeroth.error is None
            &&& first.error is None
            &&& fields == zeroth.fields + first.fields
            &&& all_emitted_in(zeroth.fields, Context::Tiff, false)
            &&& all_emitted_in(first.fields, Context::Tiff, true)
            &&& forall|j: int|
                0 <= j < fields.len() ==> ((#[trigger] fields[j]).thumbnail <==> j
                    >= zeroth.fields.len())
            &&& forall|j: int|
                0 <= j < fields.len() ==> child_context((#[trigger] fields[j]).tag) is None
        }),
{
    let n = entry_count(data, little, offset);
    let next = next_offset(data, little, offset);
    lemma_entries_emit(data, little, offset, Context::Tiff, false, n);
    if next != 0 {
        lemma_directory_emits(data, little, next as int, Context::Tiff, true);
    }
}

/// A walk that fails has met no other fields than one that ends well: of
/// any walk from the 0th directory, no field has a pointer tag, and no
/// field of the primary image comes after one of the thumbnail.
pub proof fn lemma_every_walk_in_order(data: Seq<u8>, little: bool, offset: int)
    ensures
        ({
            let fields = ifd_walk(data, little, offset, Context::Tiff, false).fields;
            &&& forall|j: int|
                0 <= j < fields.len() ==> child_context((#[trigger] fields[j]).tag) is None
            &&& forall|i: int, j: int|
                0 <= i <= j < fields.len() && (#[trigger] fields[i]).thumbnail ==> (
                #[trigger] fields[j]).thumbnail
        }),
{
    let n = entry_count(data, little, offset);
    let next = next_offset(data, little, offset);
    lemma_entries_emit(data, little, offset, Context::Tiff, false, n);
    lemma_directory_emits(data, little, next as int, Context::Tiff, true);
}

/// What an accepted buffer is.
///
/// If a buffer is accepted, it has the eight bytes of a header: `II` and
/// the buffer is reported little-endian, or `MM` and it is reported
/// big-endian; then the marker 42 in that byte order.  The walk from the
/// 0th directory, whose offset the header gives, ends well, and the fields
/// returned are those that this walk meets.
pub proof fn lemma_accepted_buffer(data: Seq<u8>)
    requires
        exif_fields(data) is Ok,
    ensures
        data.len() >= 8,
        ({
            let (fields, little) = exif_fields(data)->Ok_0;
            let walk = ifd_walk(
                data,
                little,
                load_u32(data, 4, little) as int,
                Context::Tiff,
                false,
            );
            &&& little ==> data[0] == 0x49 && data[1] == 0x49
            &&& !little ==> data[0] == 0x4d && data[1] == 0x4d
            &&& load_u16(data, 2, little) == TIFF_FORTY_TWO
            &&& walk.error is None
            &&& fields == walk.fields
        }),
{
}

/// The fields of an accepted buffer: none has a pointer tag, and those of
/// the primary image, with the flag false, all come before those of the
/// thumbnail, with the flag true.
pub proof fn lemma_accepted_fields_in_order(data: Seq<u8>)
    requires
        exif_fields(data) is Ok,
    ensures
        ({
            let fields = exif_fields(data)->Ok_0.0;
            &&& forall|j: int|
                0 <= j < fields.len() ==> child_context((#[trigger] fields[j]).tag) is None
            &&& forall|i: int, j: int|
                0 <= i <= j < fields.len() && (#[trigger] fields[i]).thumbnail ==> (
                #[trigger] fields[j]).thumbnail
        }),
{
    let little = exif_fields(data)->Ok_0.1;
    lemma_accepted_buffer(data);
    lemma_every_walk_in_order(data, little, load_u32(data, 4, little) as int);
}

} // verus!
