//! Texts that arrive in fragments, as formatted output does.

use vstd::prelude::*;
use vstd::string::StringSliceAdditionalSpecFns;

verus! {

/// The bytes of each fragment.
pub open spec fn fragment_bytes(fragments: Seq<&str>) -> Seq<Seq<u8>> {
    Seq::new(fragments.len(), |i: int| fragments[i].spec_bytes())
}

/// The fragments joined into one byte sequence, in their order.
pub open spec fn joined(fragments: Seq<Seq<u8>>) -> Seq<u8>
    decreases fragments.len(),
{
    if fragments.len() == 0 {
        Seq::empty()
    } else {
        joined(fragments.drop_last()) + fragments.last()
    }
}

} // verus!
