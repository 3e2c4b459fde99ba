//! The color themes of the window.

use vstd::prelude::*;

verus! {

/// A color theme.
#[derive(Clone, Copy, Debug, PartialEq, Eq, Structural)]
pub enum ThemeId {
    FluentLight,
    GithubLight,
    OneDark,
    Dracula,
}

/// Whether a theme is light or dark.
#[derive(Clone, Copy, Debug, PartialEq, Eq, Structural)]
pub enum ThemeMode {
    Light,
    Dark,
}

/// The colors of a theme, as `0xRRGGBB` (or `0xRRGGBBAA` for the scrim).
#[derive(Clone, Copy, Debug, PartialEq, Eq, Structural)]
pub struct Palette {
    pub surface: u32,
    pub panel: u32,
    pub title: u32,
    pub text: u32,
    pub muted: u32,
    pub border: u32,
    pub hover: u32,
    pub selected: u32,
    pub selected_hover: u32,
    pub accent: u32,
    pub accent_hover: u32,
    pub on_accent: u32,
    pub success: u32,
    pub danger: u32,
    pub scrim: u32,
}

/// The colors of each theme.
pub open spec fn palette_of(id: ThemeId) -> Palette {
    match id {
        ThemeId::FluentLight => Palette {
            surface: 0xffffff,
            panel: 0xf0f1f3,
            title: 0xf5f6f8,
            text: 0x18181b,
            muted: 0x71717a,
            border: 0xe1e4e9,
            hover: 0xe9edf2,
            selected: 0xe4edf9,
            selected_hover: 0xd7e5f7,
            accent: 0x3479cf,
            accent_hover: 0x2866b3,
            on_accent: 0xffffff,
            success: 0x267052,
            danger: 0xb42318,
            scrim: 0x18181b45,
        },
        ThemeId::GithubLight => Palette {
            surface: 0xffffff,
            panel: 0xf6f8fa,
            title: 0xf0f3f6,
            text: 0x1f2328,
            muted: 0x59636e,
            border: 0xd1d9e0,
            hover: 0xeaeef2,
            selected: 0xddf4ff,
            selected_hover: 0xc8e9fc,
            accent: 0x0969da,
            accent_hover: 0x0550ae,
            on_accent: 0xffffff,
            success: 0x1a7f37,
            danger: 0xcf222e,
            scrim: 0x1f232840,
        },
        ThemeId::OneDark => Palette {
            surface: 0x282c34,
            panel: 0x242830,
            title: 0x21252b,
            text: 0xabb2bf,
            muted: 0x939cab,
            border: 0x414754,
            hover: 0x323842,
            selected: 0x35465b,
            selected_hover: 0x405571,
            accent: 0x61afef,
            accent_hover: 0x82c1f4,
            on_accent: 0x18212b,
            success: 0x98c379,
            danger: 0xe06c75,
            scrim: 0x00000088,
        },
        ThemeId::Dracula => Palette {
            surface: 0x282a36,
            panel: 0x242631,
            title: 0x21222c,
            text: 0xf8f8f2,
            muted: 0xb0b4c9,
            border: 0x484b61,
            hover: 0x343746,
            selected: 0x44475a,
            selected_hover: 0x51556c,
            accent: 0xbd93f9,
            accent_hover: 0xd0afff,
            on_accent: 0x282a36,
            success: 0x50fa7b,
            danger: 0xff7979,
            scrim: 0x00000088,
        },
    }
}

pub open spec fn theme_label(id: ThemeId) -> Seq<char> {
    match id {
        ThemeId::FluentLight => "theme-fluent-light"@,
        ThemeId::GithubLight => "theme-github-light"@,
        ThemeId::OneDark => "theme-one-dark"@,
        ThemeId::Dracula => "theme-dracula"@,
    }
}

pub open spec fn theme_mode(id: ThemeId) -> ThemeMode {
    match id {
        ThemeId::FluentLight | ThemeId::GithubLight => ThemeMode::Light,
        ThemeId::OneDark | ThemeId::Dracula => ThemeMode::Dark,
    }
}

/// The themes that the settings offer.
pub fn themes() -> (r: [ThemeId; 2])
    ensures
        r@ == seq![ThemeId::FluentLight, ThemeId::OneDark],
{
    let r = [ThemeId::FluentLight, ThemeId::OneDark];
    assert(r@ =~= seq![ThemeId::FluentLight, ThemeId::OneDark]);
    r
}

impl ThemeId {
    /// The theme used until the user picks one.
    pub fn default_theme() -> (r: ThemeId)
        ensures
            r == ThemeId::FluentLight,
    {
        ThemeId::FluentLight
    }

    /// The message key of the theme's name.
    pub fn label(self) -> (r: &'static str)
        ensures
            r@ == theme_label(self),
    {
        match self {
            ThemeId::FluentLight => "theme-fluent-light",
            ThemeId::GithubLight => "theme-github-light",
            ThemeId::OneDark => "theme-one-dark",
            ThemeId::Dracula => "theme-dracula",
        }
    }

    /// Whether the theme is light or dark.
    pub fn mode(self) -> (r: ThemeMode)
        ensures
            r == theme_mode(self),
    {
        match self {
            ThemeId::FluentLight | ThemeId::GithubLight => ThemeMode::Light,
            ThemeId::OneDark | ThemeId::Dracula => ThemeMode::Dark,
        }
    }

    /// The colors of the theme.
    pub fn palette(self) -> (r: Palette)
        ensures
            r == palette_of(self),
    {
        match self {
            ThemeId::FluentLight => Palette {
                surface: 0xffffff,
                panel: 0xf0f1f3,
                title: 0xf5f6f8,
                text: 0x18181b,
                muted: 0x71717a,
                border: 0xe1e4e9,
                hover: 0xe9edf2,
                selected: 0xe4edf9,
                selected_hover: 0xd7e5f7,
                accent: 0x3479cf,
                accent_hover: 0x2866b3,
                on_accent: 0xffffff,
                success: 0x267052,
                danger: 0xb42318,
                scrim: 0x18181b45,
            },
            ThemeId::GithubLight => Palette {
                surface: 0xffffff,
                panel: 0xf6f8fa,
                title: 0xf0f3f6,
                text: 0x1f2328,
                muted: 0x59636e,
                border: 0xd1d9e0,
                hover: 0xeaeef2,
                selected: 0xddf4ff,
                selected_hover: 0xc8e9fc,
                accent: 0x0969da,
                accent_hover: 0x0550ae,
                on_accent: 0xffffff,
                success: 0x1a7f37,
                danger: 0xcf222e,
                scrim: 0x1f232840,
            },
            ThemeId::OneDark => Palette {
                surface: 0x282c34,
                panel: 0x242830,
                title: 0x21252b,
                text: 0xabb2bf,
                muted: 0x939cab,
                border: 0x414754,
                hover: 0x323842,
                selected: 0x35465b,
                selected_hover: 0x405571,
                accent: 0x61afef,
                accent_hover: 0x82c1f4,
                on_accent: 0x18212b,
                success: 0x98c379,
                danger: 0xe06c75,
                scrim: 0x00000088,
            },
            ThemeId::Dracula => Palette {
                surface: 0x282a36,
                panel: 0x242631,
                title: 0x21222c,
                text: 0xf8f8f2,
                muted: 0xb0b4c9,
                border: 0x484b61,
                hover: 0x343746,
                selected: 0x44475a,
                selected_hover: 0x51556c,
                accent: 0xbd93f9,
                accent_hover: 0xd0afff,
                on_accent: 0x282a36,
                success: 0x50fa7b,
                danger: 0xff7979,
                scrim: 0x00000088,
            },
        }
    }
}

} // verus!
