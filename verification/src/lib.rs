//! Bridge between a scripting host and the desktop notification facility.
//!
//! Raw bytes describing a notification are decoded into a typed request,
//! the icon specification is resolved to a concrete reference, a
//! configuration for the notification facility is assembled, and the
//! outcome of the dispatch is encoded back into one of several wire
//! formats.  All text is handled as UTF-8 byte sequences.

use vstd::prelude::*;

pub mod config;
pub mod decode;
pub mod encode;
pub mod icon;
pub mod request;

verus! {

/// The default icon reference, used when no icon is specified or when
/// resolution fails softly: the bytes of `"terminal"`.
pub open spec fn terminal_ref() -> Seq<u8> {
    seq![116u8, 101u8, 114u8, 109u8, 105u8, 110u8, 97u8, 108u8]
}

/// Builds the default icon reference as a byte vector.
pub fn terminal_icon() -> (r: Vec<u8>)
    ensures
        r@ == terminal_ref(),
{
    let v: Vec<u8> = vec![116u8, 101u8, 114u8, 109u8, 105u8, 110u8, 97u8, 108u8];
    proof {
        assert(v@ =~= terminal_ref());
    }
    v
}

} // verus!
