//! The persisted user settings and their byte codec.
//!
//! The settings blob stores the theme discriminant, the two
//! favourites-only switches and the graph colour as one byte each. The
//! codec is exact: decoding what was encoded gives the settings back,
//! and a blob is rejected precisely when its length is wrong or its
//! theme byte denotes no theme. Reading and writing the file that
//! holds the blob is the surrounding program's business.

use vstd::prelude::*;

use crate::styling::Theme;

verus! {

/// The graph colour as 8-bit channels, alpha included.
#[derive(Debug, Clone, Copy, PartialEq, Eq, Structural)]
pub struct GraphColor {
    pub red: u8,
    pub green: u8,
    pub blue: u8,
    pub alpha: u8,
}

#[derive(Debug, Clone, Copy, PartialEq, Eq, Structural)]
pub struct Settings {
    pub theme: Theme,
    /// Show the full coin catalogue rather than the favourites only.
    pub show_all_coins: bool,
    pub show_all_currencies: bool,
    pub graph_color: GraphColor,
}

impl Default for Settings {
    /// Fresh installs start on the default theme, favourites-only
    /// lists, and an opaque green graph.
    fn default() -> (r: Settings)
        ensures
            r.theme == Theme::Default,
            !r.show_all_coins,
            !r.show_all_currencies,
            r.graph_color == (GraphColor { red: 0, green: 200, blue: 0, alpha: 255 }),
    {
        Settings {
            theme: Theme::Default,
            show_all_coins: false,
            show_all_currencies: false,
            graph_color: GraphColor { red: 0, green: 200, blue: 0, alpha: 255 },
        }
    }
}

#[derive(Debug, Clone, Copy, PartialEq, Eq, Structural)]
pub enum SettingsError {
    /// The blob is not exactly seven bytes long.
    WrongLength,
    /// The theme byte denotes no theme.
    UnknownTheme,
}

pub open spec fn bool_byte(b: bool) -> u8 {
    if b {
        1
    } else {
        0
    }
}

pub open spec fn spec_encode(s: Settings) -> Seq<u8> {
    seq![
        s.theme.spec_discriminant(),
        bool_byte(s.show_all_coins),
        bool_byte(s.show_all_currencies),
        s.graph_color.red,
        s.graph_color.green,
        s.graph_color.blue,
        s.graph_color.alpha,
    ]
}

pub open spec fn spec_decode(bytes: Seq<u8>) -> Result<Settings, SettingsError> {
    if bytes.len() != 7 {
        Err(SettingsError::WrongLength)
    } else {
        match Theme::spec_from_discriminant(bytes[0]) {
            None => Err(SettingsError::UnknownTheme),
            Some(theme) => Ok(
                Settings {
                    theme,
                    show_all_coins: bytes[1] == 1,
                    show_all_currencies: bytes[2] == 1,
                    graph_color: GraphColor {
                        red: bytes[3],
                        green: bytes[4],
                        blue: bytes[5],
                        alpha: bytes[6],
                    },
                },
            ),
        }
    }
}

pub fn encode(s: &Settings) -> (r: Vec<u8>)
    ensures
        r@ == spec_encode(*s),
{
    let mut r: Vec<u8> = Vec::new();
    r.push(s.theme.discriminant());
    r.push(if s.show_all_coins { 1 } else { 0 });
    r.push(if s.show_all_currencies { 1 } else { 0 });
    r.push(s.graph_color.red);
    r.push(s.graph_color.green);
    r.push(s.graph_color.blue);
    r.push(s.graph_color.alpha);
    proof {
        assert(r@ =~= spec_encode(*s));
    }
    r
}

/// Decode a settings blob. Succeeds exactly on seven-byte blobs whose
/// first byte denotes a theme; any byte but 1 reads as a cleared
/// switch, as the encoder writes 0 and 1 only.
pub fn decode(bytes: &Vec<u8>) -> (r: Result<Settings, SettingsError>)
    ensures
        r == spec_decode(bytes@),
        r is Ok <==> bytes@.len() == 7 && Theme::spec_from_discriminant(bytes@[0]) is Some,
{
    if bytes.len() != 7 {
        return Err(SettingsError::WrongLength);
    }
    match Theme::from_discriminant(bytes[0]) {
        None => Err(SettingsError::UnknownTheme),
        Some(theme) => Ok(
            Settings {
                theme,
                show_all_coins: bytes[1] == 1,
                show_all_currencies: bytes[2] == 1,
                graph_color: GraphColor {
                    red: bytes[3],
                    green: bytes[4],
                    blue: bytes[5],
                    alpha: bytes[6],
                },
            },
        ),
    }
}

/// The codec round-trips: decoding an encoded settings value gives
/// exactly that value back.
pub proof fn lemma_settings_round_trip(s: Settings)
    ensures
        spec_decode(spec_encode(s)) == Ok::<Settings, SettingsError>(s),
{
    crate::styling::lemma_theme_discriminant_round_trip(s.theme);
}

} // verus!
