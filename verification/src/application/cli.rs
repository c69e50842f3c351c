//! What the command-line interface decides.

use vstd::prelude::*;
use vstd::string::StrSliceExecFns;
use crate::domain::value_objects::CacheTier;

verus! {

/// The tier a `clear` command names: `L1` or `l1`, `L2` or `l2`; any other
/// name (L3 included) clears every tier.
pub open spec fn named_clear_tier(name: Seq<char>) -> Option<CacheTier> {
    if name == seq!['L', '1'] || name == seq!['l', '1'] {
        Some(CacheTier::L1)
    } else if name == seq!['L', '2'] || name == seq!['l', '2'] {
        Some(CacheTier::L2)
    } else {
        None
    }
}

/// The tier a `clear` command names, or `None` for every tier.
pub fn clear_tier_arg(name: &str) -> (r: Option<CacheTier>)
    ensures
        r == named_clear_tier(name@),
{
    if name.unicode_len() != 2 {
        assert(name@ != seq!['L', '1'] && name@ != seq!['l', '1'] && name@ != seq!['L', '2'] && name@ != seq!['l', '2']);
        return None;
    }
    let first = name.get_char(0);
    let second = name.get_char(1);
    proof {
        assert(name@ == seq![first, second]);
    }
    if (first == 'L' || first == 'l') && second == '1' {
        Some(CacheTier::L1)
    } else if (first == 'L' || first == 'l') && second == '2' {
        Some(CacheTier::L2)
    } else {
        None
    }
}

} // verus!
