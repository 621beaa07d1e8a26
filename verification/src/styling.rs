//! The theme choice and the 8-bit colour data of the dark scheme.
//!
//! The theme is part of the persisted settings, so its wire discriminant
//! lives here with an exact round trip. The widget palettes carry the
//! dark scheme's colours as plain 8-bit channels; the light scheme and
//! everything measured in fractions (radii, shadows, translucency) is
//! the renderer's business and stays outside this crate.

use vstd::prelude::*;

verus! {

#[derive(Debug, Clone, Copy, PartialEq, Eq, Structural)]
pub enum Theme {
    Default,
    Light,
    Dark,
}

impl Theme {
    /// The byte the settings codec stores for this theme.
    pub open spec fn spec_discriminant(self) -> u8 {
        match self {
            Theme::Default => 0,
            Theme::Light => 1,
            Theme::Dark => 2,
        }
    }

    pub open spec fn spec_from_discriminant(discriminant: u8) -> Option<Theme> {
        if discriminant == 0 {
            Some(Theme::Default)
        } else if discriminant == 1 {
            Some(Theme::Light)
        } else if discriminant == 2 {
            Some(Theme::Dark)
        } else {
            None
        }
    }

    pub fn discriminant(&self) -> (r: u8)
        ensures
            r == self.spec_discriminant(),
    {
        match self {
            Theme::Default => 0,
            Theme::Light => 1,
            Theme::Dark => 2,
        }
    }

    /// The theme a stored byte denotes; `None` exactly for bytes no
    /// theme uses.
    pub fn from_discriminant(discriminant: u8) -> (r: Option<Theme>)
        ensures
            r == Theme::spec_from_discriminant(discriminant),
            r matches Some(theme) ==> theme.spec_discriminant() == discriminant,
    {
        match discriminant {
            0 => Some(Theme::Default),
            1 => Some(Theme::Light),
            2 => Some(Theme::Dark),
            _ => None,
        }
    }

    /// Every theme, in discriminant order.
    pub fn all() -> (r: Vec<Theme>)
        ensures
            r@ == seq![Theme::Default, Theme::Light, Theme::Dark],
    {
        let mut r: Vec<Theme> = Vec::new();
        r.push(Theme::Default);
        r.push(Theme::Light);
        r.push(Theme::Dark);
        proof {
            assert(r@ =~= seq![Theme::Default, Theme::Light, Theme::Dark]);
        }
        r
    }

    pub fn label(&self) -> (r: &'static str)
        ensures
            *self is Default ==> r@ == "Default"@,
            *self is Light ==> r@ == "Light"@,
            *self is Dark ==> r@ == "Dark"@,
    {
        match self {
            Theme::Default => "Default",
            Theme::Light => "Light",
            Theme::Dark => "Dark",
        }
    }
}

impl Default for Theme {
    fn default() -> (r: Theme)
        ensures
            r == Theme::Default,
    {
        Theme::Default
    }
}

/// Every theme's discriminant reads back as that theme.
pub proof fn lemma_theme_discriminant_round_trip(theme: Theme)
    ensures
        Theme::spec_from_discriminant(theme.spec_discriminant()) == Some(theme),
{
}

/// A colour as 8-bit channels.
#[derive(Debug, Clone, Copy, PartialEq, Eq, Structural)]
pub struct Rgb {
    pub red: u8,
    pub green: u8,
    pub blue: u8,
}

/// The dark scheme's base colours.
pub open spec fn dark_background() -> Rgb {
    Rgb { red: 0x36, green: 0x39, blue: 0x3F }
}

pub open spec fn dark_surface() -> Rgb {
    Rgb { red: 0x40, green: 0x44, blue: 0x4B }
}

pub open spec fn dark_active() -> Rgb {
    Rgb { red: 0x72, green: 0x89, blue: 0xDA }
}

pub open spec fn dark_hovered() -> Rgb {
    Rgb { red: 0x67, green: 0x7B, blue: 0xC4 }
}

pub open spec fn white() -> Rgb {
    Rgb { red: 0xFF, green: 0xFF, blue: 0xFF }
}

/// Button colours.
#[derive(Debug, Clone, Copy, PartialEq, Eq, Structural)]
pub struct Button {
    pub background: Rgb,
    pub hovered_background: Rgb,
    pub text: Rgb,
}

impl Button {
    pub fn dark() -> (r: Button)
        ensures
            r.background == dark_active(),
            r.hovered_background == dark_hovered(),
            r.text == white(),
    {
        Button {
            background: Rgb { red: 0x72, green: 0x89, blue: 0xDA },
            hovered_background: Rgb { red: 0x67, green: 0x7B, blue: 0xC4 },
            text: Rgb { red: 0xFF, green: 0xFF, blue: 0xFF },
        }
    }
}

/// Picklist colours, for the closed control and its open menu alike.
#[derive(Debug, Clone, Copy, PartialEq, Eq, Structural)]
pub struct PickList {
    pub background: Rgb,
    pub text: Rgb,
    pub border: Rgb,
    pub selected_background: Rgb,
}

impl PickList {
    pub fn dark() -> (r: PickList)
        ensures
            r.background == dark_surface(),
            r.text == white(),
            r.border == dark_active(),
            r.selected_background == dark_active(),
    {
        PickList {
            background: Rgb { red: 0x40, green: 0x44, blue: 0x4B },
            text: Rgb { red: 0xFF, green: 0xFF, blue: 0xFF },
            border: Rgb { red: 0x72, green: 0x89, blue: 0xDA },
            selected_background: Rgb { red: 0x72, green: 0x89, blue: 0xDA },
        }
    }
}

/// Checkbox colours, keyed by the checked state.
#[derive(Debug, Clone, Copy, PartialEq, Eq, Structural)]
pub struct Checkbox {
    pub checked_background: Rgb,
    pub unchecked_background: Rgb,
    pub checkmark: Rgb,
    pub border: Rgb,
}

impl Checkbox {
    pub fn dark() -> (r: Checkbox)
        ensures
            r.checked_background == dark_active(),
            r.unchecked_background == dark_surface(),
            r.checkmark == white(),
            r.border == dark_active(),
    {
        Checkbox {
            checked_background: Rgb { red: 0x72, green: 0x89, blue: 0xDA },
            unchecked_background: Rgb { red: 0x40, green: 0x44, blue: 0x4B },
            checkmark: Rgb { red: 0xFF, green: 0xFF, blue: 0xFF },
            border: Rgb { red: 0x72, green: 0x89, blue: 0xDA },
        }
    }

    /// The fill behind the mark for a given checked state.
    pub fn background(&self, is_checked: bool) -> (r: Rgb)
        ensures
            r == if is_checked {
                self.checked_background
            } else {
                self.unchecked_background
            },
    {
        if is_checked {
            self.checked_background
        } else {
            self.unchecked_background
        }
    }
}

/// Container colours.
#[derive(Debug, Clone, Copy, PartialEq, Eq, Structural)]
pub struct Container {
    pub background: Rgb,
    pub text: Rgb,
}

impl Container {
    pub fn dark() -> (r: Container)
        ensures
            r.background == dark_background(),
            r.text == white(),
    {
        Container {
            background: Rgb { red: 0x36, green: 0x39, blue: 0x3F },
            text: Rgb { red: 0xFF, green: 0xFF, blue: 0xFF },
        }
    }
}

/// Separator rule: colour plus its integer geometry.
#[derive(Debug, Clone, Copy, PartialEq, Eq, Structural)]
pub struct Rule {
    pub color: Rgb,
    pub width: u16,
    pub fill_padding: u16,
}

impl Rule {
    pub fn dark() -> (r: Rule)
        ensures
            r.color == dark_surface(),
            r.width == 2,
            r.fill_padding == 15,
    {
        Rule { color: Rgb { red: 0x40, green: 0x44, blue: 0x4B }, width: 2, fill_padding: 15 }
    }
}

} // verus!
