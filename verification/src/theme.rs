//! The colour themes the application offers, and their names in the
//! configuration file.
use vstd::prelude::*;
use crate::text::text_eq;

verus! {

/// Light, dark, or following the system.
#[derive(Clone, Copy, Debug, PartialEq, Eq, Structural)]
pub enum ThemeMode {
    Light,
    Dark,
    System,
}

impl Default for ThemeMode {
    fn default() -> (r: Self)
        ensures
            r == ThemeMode::System,
    {
        ThemeMode::System
    }
}

/// The name under which a theme is saved.
pub open spec fn theme_name(m: ThemeMode) -> Seq<char> {
    match m {
        ThemeMode::Light => "Light"@,
        ThemeMode::Dark => "Dark"@,
        ThemeMode::System => "System"@,
    }
}

/// The theme a saved name stands for: "Dark" and "System" are themselves,
/// and anything else is the light theme.
pub open spec fn theme_from_name(name: Seq<char>) -> ThemeMode {
    if name == "Dark"@ {
        ThemeMode::Dark
    } else if name == "System"@ {
        ThemeMode::System
    } else {
        ThemeMode::Light
    }
}

impl ThemeMode {
    /// The name under which the theme is saved.
    pub fn name(&self) -> (r: String)
        ensures
            r@ == theme_name(*self),
    {
        match self {
            ThemeMode::Light => String::from_str("Light"),
            ThemeMode::Dark => String::from_str("Dark"),
            ThemeMode::System => String::from_str("System"),
        }
    }

    /// The theme a saved name stands for.
    pub fn from_name(name: &str) -> (r: ThemeMode)
        ensures
            r == theme_from_name(name@),
    {
        if text_eq(name, "Dark") {
            ThemeMode::Dark
        } else if text_eq(name, "System") {
            ThemeMode::System
        } else {
            ThemeMode::Light
        }
    }
}

/// Saving a theme and reading it back gives the same theme.
pub proof fn law_theme_name_round_trip(m: ThemeMode)
    ensures
        theme_from_name(theme_name(m)) == m,
{
    reveal_strlit("Light");
    reveal_strlit("Dark");
    reveal_strlit("System");
    assert("Light"@ != "Dark"@ && "Light"@ != "System"@ && "Dark"@ != "System"@) by {
        assert("Light"@[0] != "Dark"@[0]);
        assert("Light"@[0] != "System"@[0]);
        assert("Dark"@[0] != "System"@[0]);
    }
}

/// The application's look; the colours themselves are applied by the user
/// interface.
pub struct ModernTheme;

} // verus!
