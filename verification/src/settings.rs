//! Application preferences read from the settings table.

use vstd::prelude::*;
use crate::text::str_eq;

verus! {

/// UI theme preference.
#[derive(Debug, Clone, Copy, PartialEq, Eq, Structural)]
pub enum ThemePreference {
    System,
    Light,
    Dark,
}

/// The stored name of a theme.
pub open spec fn theme_code(t: ThemePreference) -> Seq<char> {
    match t {
        ThemePreference::System => "system"@,
        ThemePreference::Light => "light"@,
        ThemePreference::Dark => "dark"@,
    }
}

/// The theme a stored value names; a missing or unknown value means
/// `System`.
pub open spec fn theme_of(v: Option<Seq<char>>) -> ThemePreference {
    match v {
        Some(s) => if s == "light"@ {
            ThemePreference::Light
        } else if s == "dark"@ {
            ThemePreference::Dark
        } else {
            ThemePreference::System
        },
        None => ThemePreference::System,
    }
}

impl ThemePreference {
    /// The stored name of the theme.
    pub fn as_str(&self) -> (r: &'static str)
        ensures
            r@ == theme_code(*self),
    {
        proof {
            reveal_strlit("system");
            reveal_strlit("light");
            reveal_strlit("dark");
        }
        match self {
            ThemePreference::System => "system",
            ThemePreference::Light => "light",
            ThemePreference::Dark => "dark",
        }
    }

    /// The theme of a stored setting value.
    pub fn from_setting(v: Option<&str>) -> (r: ThemePreference)
        ensures
            r == theme_of(match v {
                Some(s) => Some(s@),
                None => None,
            }),
    {
        match v {
            Some(s) => if str_eq(s, "light") {
                ThemePreference::Light
            } else if str_eq(s, "dark") {
                ThemePreference::Dark
            } else {
                ThemePreference::System
            },
            None => ThemePreference::System,
        }
    }
}

/// Reading back a stored theme gives the theme.
pub proof fn law_theme_round_trip(t: ThemePreference)
    ensures
        theme_of(Some(theme_code(t))) == t,
{
    reveal_strlit("system");
    reveal_strlit("light");
    reveal_strlit("dark");
    assert("system"@.len() != "light"@.len());
    assert("system"@.len() != "dark"@.len());
    assert("light"@.len() != "dark"@.len());
}

} // verus!
