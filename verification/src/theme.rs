//! The terminal interface's colors (the Tokyo Night palette) and how HTTP
//! statuses are shown.

use vstd::prelude::*;

verus! {

/// The palette colors the status display uses.
#[derive(Clone, Copy, Debug, PartialEq, Eq, Structural)]
pub enum Palette {
    Red,
    Yellow,
    Cyan,
    Green,
    Blue,
    FgDark,
}

impl Palette {
    /// The color as red, green and blue components.
    pub fn rgb(&self) -> (r: (u8, u8, u8))
        ensures
            r == match *self {
                Palette::Red => (0xf7u8, 0x76u8, 0x8eu8),
                Palette::Yellow => (0xe0u8, 0xafu8, 0x68u8),
                Palette::Cyan => (0x7du8, 0xcfu8, 0xffu8),
                Palette::Green => (0x9eu8, 0xceu8, 0x6au8),
                Palette::Blue => (0x7au8, 0xa2u8, 0xf7u8),
                Palette::FgDark => (0x56u8, 0x5fu8, 0x89u8),
            },
    {
        match self {
            Palette::Red => (0xf7, 0x76, 0x8e),
            Palette::Yellow => (0xe0, 0xaf, 0x68),
            Palette::Cyan => (0x7d, 0xcf, 0xff),
            Palette::Green => (0x9e, 0xce, 0x6a),
            Palette::Blue => (0x7a, 0xa2, 0xf7),
            Palette::FgDark => (0x56, 0x5f, 0x89),
        }
    }
}

/// The color of an HTTP status by its class: server errors red, client
/// errors yellow, redirects cyan, successes green, informational blue,
/// anything else dim.
pub open spec fn status_color(status: u16) -> Palette {
    if 500 <= status <= 599 {
        Palette::Red
    } else if 400 <= status <= 499 {
        Palette::Yellow
    } else if 300 <= status <= 399 {
        Palette::Cyan
    } else if 200 <= status <= 299 {
        Palette::Green
    } else if 100 <= status <= 199 {
        Palette::Blue
    } else {
        Palette::FgDark
    }
}

/// The color for an HTTP status code.
pub fn http_status_color(status: u16) -> (r: Palette)
    ensures
        r == status_color(status),
{
    if 500 <= status && status <= 599 {
        Palette::Red
    } else if 400 <= status && status <= 499 {
        Palette::Yellow
    } else if 300 <= status && status <= 399 {
        Palette::Cyan
    } else if 200 <= status && status <= 299 {
        Palette::Green
    } else if 100 <= status && status <= 199 {
        Palette::Blue
    } else {
        Palette::FgDark
    }
}

/// The symbol and color for an HTTP status code (informational statuses
/// get the dim bullet).
pub fn http_status_style(status: u16) -> (r: (&'static str, Palette))
    ensures
        500 <= status <= 599 ==> r.0@ == "⚠"@ && r.1 == Palette::Red,
        400 <= status <= 499 ==> r.0@ == "✗"@ && r.1 == Palette::Yellow,
        300 <= status <= 399 ==> r.0@ == "↪"@ && r.1 == Palette::Cyan,
        200 <= status <= 299 ==> r.0@ == "→"@ && r.1 == Palette::Green,
        !(200 <= status <= 599) ==> r.0@ == "•"@ && r.1 == Palette::FgDark,
{
    if 500 <= status && status <= 599 {
        ("⚠", Palette::Red)
    } else if 400 <= status && status <= 499 {
        ("✗", Palette::Yellow)
    } else if 300 <= status && status <= 399 {
        ("↪", Palette::Cyan)
    } else if 200 <= status && status <= 299 {
        ("→", Palette::Green)
    } else {
        ("•", Palette::FgDark)
    }
}

} // verus!
