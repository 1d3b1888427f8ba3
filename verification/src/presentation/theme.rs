//! Resolved light/dark/system theme tokens.
//!
//! `System` is not a color: the adapter resolves it to light or dark by
//! asking the platform for the current color scheme. This module only maps a
//! preference plus a resolved scheme into concrete tokens.

use vstd::prelude::*;

use crate::domain::ThemePreference;

verus! {

/// A concrete resolved color scheme.
#[derive(Debug, Clone, Copy, PartialEq, Eq, Structural)]
pub enum ResolvedColorScheme {
    Light,
    Dark,
}

impl Default for ResolvedColorScheme {
    fn default() -> (r: ResolvedColorScheme)
        ensures
            r == ResolvedColorScheme::Dark,
    {
        ResolvedColorScheme::Dark
    }
}

/// Concrete, contrast-checked token set for one scheme (hex `#RRGGBB`).
#[derive(Debug, Clone, Copy, PartialEq, Eq)]
pub struct ResolvedTheme {
    pub scheme: ResolvedColorScheme,
    /// Main window background.
    pub background: &'static str,
    /// Card and search-container surface.
    pub surface: &'static str,
    /// Hairline separators and control borders.
    pub border: &'static str,
    /// Primary text.
    pub text: &'static str,
    /// Secondary text (path and tag line, hints).
    pub text_secondary: &'static str,
    /// Accent (focus, selected-row tint).
    pub accent: &'static str,
    /// Text on the accent surface.
    pub on_accent: &'static str,
    /// Warning / inaccessible glyph colour.
    pub warning: &'static str,
    /// Row selection background tint.
    pub selection: &'static str,
}

/// The scheme a preference shows under the system scheme `system`.
pub open spec fn scheme_for(preference: ThemePreference, system: ResolvedColorScheme) -> ResolvedColorScheme {
    match preference {
        ThemePreference::Light => ResolvedColorScheme::Light,
        ThemePreference::Dark => ResolvedColorScheme::Dark,
        ThemePreference::System => system,
    }
}

/// The token set of `scheme`.
pub open spec fn tokens_of(scheme: ResolvedColorScheme) -> ResolvedTheme {
    match scheme {
        ResolvedColorScheme::Light => ResolvedTheme {
            scheme: ResolvedColorScheme::Light,
            background: "#F7F8FA",
            surface: "#FFFFFF",
            border: "#E2E5EA",
            text: "#1B1B1F",
            text_secondary: "#5F6368",
            accent: "#005FB8",
            on_accent: "#FFFFFF",
            warning: "#8A5A00",
            selection: "#DEEBFA",
        },
        ResolvedColorScheme::Dark => ResolvedTheme {
            scheme: ResolvedColorScheme::Dark,
            background: "#1C1C1C",
            surface: "#252526",
            border: "#3A3A3D",
            text: "#F3F3F3",
            text_secondary: "#C9C9CD",
            accent: "#60CDFF",
            on_accent: "#000000",
            warning: "#F2C94C",
            selection: "#39393D",
        },
    }
}

impl ResolvedTheme {
    /// The light token set. The warning amber is dark enough to meet 4.5:1
    /// text contrast on the light background.
    pub fn light() -> (r: ResolvedTheme)
        ensures
            r == tokens_of(ResolvedColorScheme::Light),
    {
        ResolvedTheme {
            scheme: ResolvedColorScheme::Light,
            background: "#F7F8FA",
            surface: "#FFFFFF",
            border: "#E2E5EA",
            text: "#1B1B1F",
            text_secondary: "#5F6368",
            accent: "#005FB8",
            on_accent: "#FFFFFF",
            warning: "#8A5A00",
            selection: "#DEEBFA",
        }
    }

    /// The dark token set.
    pub fn dark() -> (r: ResolvedTheme)
        ensures
            r == tokens_of(ResolvedColorScheme::Dark),
    {
        ResolvedTheme {
            scheme: ResolvedColorScheme::Dark,
            background: "#1C1C1C",
            surface: "#252526",
            border: "#3A3A3D",
            text: "#F3F3F3",
            text_secondary: "#C9C9CD",
            accent: "#60CDFF",
            on_accent: "#000000",
            warning: "#F2C94C",
            selection: "#39393D",
        }
    }

    /// Resolves a user preference plus the system scheme into tokens.
    pub fn resolve(preference: ThemePreference, system: ResolvedColorScheme) -> (r: ResolvedTheme)
        ensures
            r == tokens_of(scheme_for(preference, system)),
            r.scheme == scheme_for(preference, system),
    {
        let scheme = match preference {
            ThemePreference::Light => ResolvedColorScheme::Light,
            ThemePreference::Dark => ResolvedColorScheme::Dark,
            ThemePreference::System => system,
        };
        match scheme {
            ResolvedColorScheme::Light => ResolvedTheme::light(),
            ResolvedColorScheme::Dark => ResolvedTheme::dark(),
        }
    }
}

} // verus!
