//! The wordmark and tagline of the terminal header.

use vstd::prelude::*;

verus! {

/// Wide wordmark displayed when enough horizontal space is available.
pub const WIDE_LOGO: &'static str = "LUMINUS";

/// Compact wordmark for narrow terminal windows.
pub const COMPACT_LOGO: &'static str = "◆ LUMINUS";

pub const TAGLINE: &'static str = "Illuminate the codebase.";

/// The wordmark for a terminal `width` columns wide: the compact one below
/// seventy columns, the wide one from there on.
pub fn title(width: u16) -> (r: &'static str)
    ensures
        r@ == if width < 70 {
            COMPACT_LOGO@
        } else {
            WIDE_LOGO@
        },
{
    if width < 70 {
        COMPACT_LOGO
    } else {
        WIDE_LOGO
    }
}

} // verus!
