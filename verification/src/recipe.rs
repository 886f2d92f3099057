//! Defaults of the non-numeric parts of an editing recipe.

use vstd::prelude::*;

verus! {

/// Crop aspect of a recipe that does not name one: the image's own.
pub fn default_crop_aspect() -> (r: String)
    ensures
        r@ == "Original"@,
{
    String::from_str("Original")
}

} // verus!
