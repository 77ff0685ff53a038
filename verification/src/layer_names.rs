//! Layer index to short display name.
//!
//! Mirrors the `enum layer` of the svalboard keymap; both change together.

use vstd::prelude::*;
use crate::text::{push_decimal, spec_decimal, to_string};

verus! {

/// The display name of a layer: the keymap's name for the known layers,
/// `L` followed by the decimal index for all others.
pub open spec fn spec_layer_name(index: u8) -> Seq<char> {
    if index == 0 {
        "BASE"@
    } else if index == 1 {
        "BASE-H"@
    } else if index == 2 {
        "FN"@
    } else if index == 3 {
        "FN-H"@
    } else if index == 4 {
        "NAS"@
    } else if index == 5 {
        "NAS-H"@
    } else if index == 6 {
        "NUM"@
    } else if index == 15 {
        "MBO"@
    } else {
        "L"@ + spec_decimal(index as nat)
    }
}

pub fn layer_name(index: u8) -> (name: String)
    ensures
        name@ == spec_layer_name(index),
{
    match index {
        0 => to_string("BASE"),
        1 => to_string("BASE-H"),
        2 => to_string("FN"),
        3 => to_string("FN-H"),
        4 => to_string("NAS"),
        5 => to_string("NAS-H"),
        6 => to_string("NUM"),
        15 => to_string("MBO"),
        n => {
            let mut s = to_string("L");
            push_decimal(&mut s, n as u64);
            s
        },
    }
}

} // verus!
