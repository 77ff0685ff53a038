//! QMK modifier bitmasks and how they are shown.
//!
//! Mod byte layout: bit 0 = LCTL, bit 1 = LSFT, bit 2 = LALT, bit 3 = LGUI,
//! bit 4 = RCTL, bit 5 = RSFT, bit 6 = RALT, bit 7 = RGUI.
//! Left and right collapse into one letter per modifier, in `CSAG` order.

use vstd::prelude::*;
use vstd::string::*;

verus! {

pub const MOD_LCTL: u8 = 0x01;
pub const MOD_LSFT: u8 = 0x02;
pub const MOD_LALT: u8 = 0x04;
pub const MOD_LGUI: u8 = 0x08;
pub const MOD_RCTL: u8 = 0x10;
pub const MOD_RSFT: u8 = 0x20;
pub const MOD_RALT: u8 = 0x40;
pub const MOD_RGUI: u8 = 0x80;

pub const MOD_CTL: u8 = 0x11;
pub const MOD_SFT: u8 = 0x22;
pub const MOD_ALT: u8 = 0x44;
pub const MOD_GUI: u8 = 0x88;

/// `letter` when the mask has a bit of `group` set, nothing otherwise.
pub open spec fn letter_if(bits: u8, group: u8, letter: char) -> Seq<char> {
    if bits & group != 0 {
        seq![letter]
    } else {
        Seq::empty()
    }
}

/// The letters shown for a mod mask: one per modifier present, `CSAG` order.
pub open spec fn spec_mods_letters(bits: u8) -> Seq<char> {
    letter_if(bits, MOD_CTL, 'C') + letter_if(bits, MOD_SFT, 'S') + letter_if(bits, MOD_ALT, 'A')
        + letter_if(bits, MOD_GUI, 'G')
}

proof fn lemma_letter_if_contains(bits: u8, group: u8, letter: char, x: char)
    ensures
        letter_if(bits, group, letter).contains(x) == (bits & group != 0 && x == letter),
{
    if bits & group != 0 && x == letter {
        assert(letter_if(bits, group, letter)[0] == x);
    }
}

/// Left and right collapse: the letters depend only on which modifier
/// groups have a bit set, not on which side or in which bit order.
pub proof fn lemma_letters_depend_on_groups(a: u8, b: u8)
    requires
        (a & MOD_CTL != 0) == (b & MOD_CTL != 0),
        (a & MOD_SFT != 0) == (b & MOD_SFT != 0),
        (a & MOD_ALT != 0) == (b & MOD_ALT != 0),
        (a & MOD_GUI != 0) == (b & MOD_GUI != 0),
    ensures
        spec_mods_letters(a) == spec_mods_letters(b),
{
}

/// The letters come in `CSAG` order, each at most once: the rendering is a
/// subsequence of `CSAG`, with a letter present exactly when its group is.
pub proof fn lemma_letters_canonical(bits: u8)
    ensures
        spec_mods_letters(bits).len() <= 4,
        spec_mods_letters(bits).contains('C') == (bits & MOD_CTL != 0),
        spec_mods_letters(bits).contains('S') == (bits & MOD_SFT != 0),
        spec_mods_letters(bits).contains('A') == (bits & MOD_ALT != 0),
        spec_mods_letters(bits).contains('G') == (bits & MOD_GUI != 0),
        bits == 0 ==> spec_mods_letters(bits).len() == 0,
{
    let c = letter_if(bits, MOD_CTL, 'C');
    let sh = letter_if(bits, MOD_SFT, 'S');
    let al = letter_if(bits, MOD_ALT, 'A');
    let g = letter_if(bits, MOD_GUI, 'G');
    let s = spec_mods_letters(bits);
    assert(s == c + sh + al + g);
    assert forall|x: char| s.contains(x) <==> (c.contains(x) || sh.contains(x) || al.contains(x)
        || g.contains(x)) by {
        if s.contains(x) {
            let i = choose|i: int| 0 <= i < s.len() && s[i] == x;
            if i < c.len() {
                assert(c[i] == x);
            } else if i < c.len() + sh.len() {
                assert(sh[i - c.len()] == x);
            } else if i < c.len() + sh.len() + al.len() {
                assert(al[i - c.len() - sh.len()] == x);
            } else {
                assert(g[i - c.len() - sh.len() - al.len()] == x);
            }
        }
        if c.contains(x) {
            assert(s[0] == x);
        }
        if sh.contains(x) {
            assert(s[c.len() as int] == x);
        }
        if al.contains(x) {
            assert(s[(c.len() + sh.len()) as int] == x);
        }
        if g.contains(x) {
            assert(s[(c.len() + sh.len() + al.len()) as int] == x);
        }
    }
    lemma_letter_if_contains(bits, MOD_CTL, 'C', 'C');
    lemma_letter_if_contains(bits, MOD_SFT, 'S', 'C');
    lemma_letter_if_contains(bits, MOD_ALT, 'A', 'C');
    lemma_letter_if_contains(bits, MOD_GUI, 'G', 'C');
    lemma_letter_if_contains(bits, MOD_CTL, 'C', 'S');
    lemma_letter_if_contains(bits, MOD_SFT, 'S', 'S');
    lemma_letter_if_contains(bits, MOD_ALT, 'A', 'S');
    lemma_letter_if_contains(bits, MOD_GUI, 'G', 'S');
    lemma_letter_if_contains(bits, MOD_CTL, 'C', 'A');
    lemma_letter_if_contains(bits, MOD_SFT, 'S', 'A');
    lemma_letter_if_contains(bits, MOD_ALT, 'A', 'A');
    lemma_letter_if_contains(bits, MOD_GUI, 'G', 'A');
    lemma_letter_if_contains(bits, MOD_CTL, 'C', 'G');
    lemma_letter_if_contains(bits, MOD_SFT, 'S', 'G');
    lemma_letter_if_contains(bits, MOD_ALT, 'A', 'G');
    lemma_letter_if_contains(bits, MOD_GUI, 'G', 'G');
    if bits == 0 {
        assert(0u8 & MOD_CTL == 0 && 0u8 & MOD_SFT == 0 && 0u8 & MOD_ALT == 0 && 0u8 & MOD_GUI == 0)
            by (bit_vector);
    }
}

/// Convert a QMK mod bitmask to letters in canonical `CSAG` order.
///
/// Empty mask gives the empty string.
pub fn mods_to_letters(bits: u8) -> (s: String)
    ensures
        s@ == spec_mods_letters(bits),
{
    let mut s = String::new();
    if bits & MOD_CTL != 0 {
        s.append("C");
    }
    if bits & MOD_SFT != 0 {
        s.append("S");
    }
    if bits & MOD_ALT != 0 {
        s.append("A");
    }
    if bits & MOD_GUI != 0 {
        s.append("G");
    }
    proof {
        reveal_strlit("C");
        reveal_strlit("S");
        reveal_strlit("A");
        reveal_strlit("G");
        assert(s@ =~= spec_mods_letters(bits));
    }
    s
}

/// Highest-precedence mod state, used for display colouring.
///
/// Precedence: locked > held (real) > one-shot > weak > none.
#[derive(Debug, Clone, Copy, PartialEq, Eq)]
pub enum ModState {
    NoMods,
    Weak,
    Osm,
    Held,
    Locked,
}

impl ModState {
    /// The name under which the state is shown.
    pub open spec fn spec_name(self) -> Seq<char> {
        match self {
            ModState::NoMods => "none"@,
            ModState::Weak => "weak"@,
            ModState::Osm => "osm"@,
            ModState::Held => "held"@,
            ModState::Locked => "locked"@,
        }
    }

    pub fn as_str(&self) -> (s: &'static str)
        ensures
            s@ == self.spec_name(),
    {
        match self {
            ModState::NoMods => "none",
            ModState::Weak => "weak",
            ModState::Osm => "osm",
            ModState::Held => "held",
            ModState::Locked => "locked",
        }
    }
}

/// The state that wins among the four mod masks.
pub open spec fn spec_resolve_state(held: u8, weak: u8, osm: u8, locked: u8) -> ModState {
    if locked != 0 {
        ModState::Locked
    } else if held != 0 {
        ModState::Held
    } else if osm != 0 {
        ModState::Osm
    } else if weak != 0 {
        ModState::Weak
    } else {
        ModState::NoMods
    }
}

pub fn resolve_state(held: u8, weak: u8, osm: u8, locked: u8) -> (st: ModState)
    ensures
        st == spec_resolve_state(held, weak, osm, locked),
{
    if locked != 0 {
        ModState::Locked
    } else if held != 0 {
        ModState::Held
    } else if osm != 0 {
        ModState::Osm
    } else if weak != 0 {
        ModState::Weak
    } else {
        ModState::NoMods
    }
}

} // verus!
