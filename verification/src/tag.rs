//! Tags and the directory contexts that give tag numbers their meaning.

use vstd::prelude::*;

verus! {

/// The namespace in which a tag number is read: one for each kind of
/// directory.
#[derive(Clone, Copy, Debug, PartialEq, Eq, Structural, Hash)]
pub enum Context {
    /// The primary directories of a TIFF structure (the 0th and 1st).
    Tiff,
    /// The directory of Exif attributes.
    Exif,
    /// The directory of GPS attributes.
    Gps,
    /// The directory of interoperability attributes.
    Interop,
}

/// A tag: the context it was found in and its number there.
#[derive(Clone, Copy, Debug, PartialEq, Eq, Structural, Hash)]
pub struct Tag(pub Context, pub u16);

/// Number of the tag that holds the offset of the Exif directory.
pub const EXIF_IFD_POINTER: u16 = 0x8769;

/// Number of the tag that holds the offset of the GPS directory.
pub const GPS_INFO_IFD_POINTER: u16 = 0x8825;

/// Number of the tag that holds the offset of the interoperability directory.
pub const INTEROP_IFD_POINTER: u16 = 0xa005;

/// The context of the directory that `tag` points to, if `tag` is one of the
/// three pointer tags.  Only the primary context holds pointer tags.
pub open spec fn child_context(tag: Tag) -> Option<Context> {
    if tag.0 != Context::Tiff {
        None
    } else if tag.1 == EXIF_IFD_POINTER {
        Some(Context::Exif)
    } else if tag.1 == GPS_INFO_IFD_POINTER {
        Some(Context::Gps)
    } else if tag.1 == INTEROP_IFD_POINTER {
        Some(Context::Interop)
    } else {
        None
    }
}

/// How many levels of directories can still open below one of context
/// `ctx`.
pub open spec fn depth(ctx: Context) -> nat {
    match ctx {
        Context::Tiff => 1,
        _ => 0,
    }
}

/// A pointer tag leads to a context that is strictly nearer to the leaves:
/// the contexts form no cycle.
pub proof fn lemma_child_is_deeper(tag: Tag)
    ensures
        child_context(tag) matches Some(c) ==> depth(c) < depth(tag.0) && c != Context::Tiff,
{
}

impl Tag {
    /// The context in which the tag was found.
    pub fn context(&self) -> (c: Context)
        ensures
            c == self.0,
    {
        self.0
    }

    /// The number of the tag in its context.
    pub fn number(&self) -> (n: u16)
        ensures
            n == self.1,
    {
        self.1
    }

    /// Tells whether the tag is a pointer to a directory, and of which
    /// context.
    pub fn child_context(&self) -> (c: Option<Context>)
        ensures
            c == child_context(*self),
    {
        match self.0 {
            Context::Tiff => {
                if self.1 == EXIF_IFD_POINTER {
                    Some(Context::Exif)
                } else if self.1 == GPS_INFO_IFD_POINTER {
                    Some(Context::Gps)
                } else if self.1 == INTEROP_IFD_POINTER {
                    Some(Context::Interop)
                } else {
                    None
                }
            },
            _ => None,
        }
    }
}

} // verus!
