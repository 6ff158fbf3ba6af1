//! The design system's color tokens and what they are used for. Depth is told
//! by paper tint, text is a warm ink ramp, accents and semantics are cool.
use vstd::prelude::*;

verus! {

/// A color token.
#[derive(Debug, Clone, Copy, PartialEq, Eq, Structural)]
pub enum Color {
    /// Recessed wells: plot background, log beds, table header bands.
    Paper0,
    /// The window base.
    Paper1,
    /// Cards, dialogs and popups.
    Paper2,
    /// Editable inputs only.
    Paper3,
    /// Hover and selection highlight.
    PaperTint,
    /// Primary text.
    InkPrimary,
    /// Secondary text; the floor for anything meant to be read.
    InkSecondary,
    /// Disabled controls, widget outlines and gauge boundaries; never body text.
    InkMuted,
    /// Everything interactive.
    Accent,
    /// Hovered or pressed accent.
    AccentHover,
    /// Behind accent callouts and selected text.
    AccentTint,
    /// Secondary editorial accent; never interactive.
    Graphite,
    /// Success, and an RTK fixed solution.
    Success,
    /// Behind success callouts.
    SuccessTint,
    /// Warning, and an RTK float solution. Orange, since yellow vanishes on this paper.
    Warning,
    /// Behind warning callouts.
    WarningTint,
    /// Danger, an invalid fix, unverified TLS.
    Danger,
    /// Behind danger callouts.
    DangerTint,
    /// Standard border, premultiplied.
    Hairline,
    /// Window outline, premultiplied.
    HairlineStrong,
    /// The only shadow tint, for true overlays, premultiplied.
    Shadow,
}

pub const PAPER_0: Color = Color::Paper0;

pub const PAPER_1: Color = Color::Paper1;

pub const PAPER_2: Color = Color::Paper2;

pub const PAPER_3: Color = Color::Paper3;

pub const PAPER_TINT: Color = Color::PaperTint;

pub const INK_PRIMARY: Color = Color::InkPrimary;

pub const INK_SECONDARY: Color = Color::InkSecondary;

pub const INK_MUTED: Color = Color::InkMuted;

pub const ACCENT: Color = Color::Accent;

pub const ACCENT_HOVER: Color = Color::AccentHover;

pub const ACCENT_TINT: Color = Color::AccentTint;

pub const GRAPHITE: Color = Color::Graphite;

pub const SUCCESS: Color = Color::Success;

pub const SUCCESS_TINT: Color = Color::SuccessTint;

pub const WARNING: Color = Color::Warning;

pub const WARNING_TINT: Color = Color::WarningTint;

pub const DANGER: Color = Color::Danger;

pub const DANGER_TINT: Color = Color::DangerTint;

pub const HAIRLINE: Color = Color::Hairline;

pub const HAIRLINE_STRONG: Color = Color::HairlineStrong;

pub const SHADOW: Color = Color::Shadow;

impl Color {
    /// Red, green, blue and alpha.
    pub open spec fn channels(self) -> (u8, u8, u8, u8) {
        match self {
            Color::Paper0 => (0xFAu8, 0xF3u8, 0xD9u8, 0xFFu8),
            Color::Paper1 => (0xFFu8, 0xF7u8, 0xE0u8, 0xFFu8),
            Color::Paper2 => (0xFFu8, 0xFBu8, 0xEBu8, 0xFFu8),
            Color::Paper3 => (0xFFu8, 0xFFu8, 0xFFu8, 0xFFu8),
            Color::PaperTint => (0xFFu8, 0xF4u8, 0xC9u8, 0xFFu8),
            Color::InkPrimary => (0x2Bu8, 0x24u8, 0x17u8, 0xFFu8),
            Color::InkSecondary => (0x6Bu8, 0x62u8, 0x50u8, 0xFFu8),
            Color::InkMuted => (0x8Fu8, 0x85u8, 0x70u8, 0xFFu8),
            Color::Accent => (0x1Eu8, 0x40u8, 0xAFu8, 0xFFu8),
            Color::AccentHover => (0x1Bu8, 0x36u8, 0x91u8, 0xFFu8),
            Color::AccentTint => (0xE4u8, 0xEBu8, 0xFAu8, 0xFFu8),
            Color::Graphite => (0x3Fu8, 0x3Fu8, 0x46u8, 0xFFu8),
            Color::Success => (0x04u8, 0x78u8, 0x57u8, 0xFFu8),
            Color::SuccessTint => (0xDCu8, 0xF2u8, 0xE7u8, 0xFFu8),
            Color::Warning => (0xC2u8, 0x41u8, 0x0Cu8, 0xFFu8),
            Color::WarningTint => (0xFCu8, 0xE9u8, 0xDEu8, 0xFFu8),
            Color::Danger => (0xBEu8, 0x12u8, 0x3Cu8, 0xFFu8),
            Color::DangerTint => (0xFCu8, 0xE5u8, 0xEAu8, 0xFFu8),
            Color::Hairline => (0x06u8, 0x05u8, 0x03u8, 0x24u8),
            Color::HairlineStrong => (0x0Cu8, 0x0Au8, 0x06u8, 0x47u8),
            Color::Shadow => (0x04u8, 0x04u8, 0x02u8, 0x1Au8),
        }
    }

    /// Red, green, blue and alpha.
    pub fn rgba(self) -> (r: (u8, u8, u8, u8))
        ensures
            r == self.channels(),
    {
        match self {
            Color::Paper0 => (0xFA, 0xF3, 0xD9, 0xFF),
            Color::Paper1 => (0xFF, 0xF7, 0xE0, 0xFF),
            Color::Paper2 => (0xFF, 0xFB, 0xEB, 0xFF),
            Color::Paper3 => (0xFF, 0xFF, 0xFF, 0xFF),
            Color::PaperTint => (0xFF, 0xF4, 0xC9, 0xFF),
            Color::InkPrimary => (0x2B, 0x24, 0x17, 0xFF),
            Color::InkSecondary => (0x6B, 0x62, 0x50, 0xFF),
            Color::InkMuted => (0x8F, 0x85, 0x70, 0xFF),
            Color::Accent => (0x1E, 0x40, 0xAF, 0xFF),
            Color::AccentHover => (0x1B, 0x36, 0x91, 0xFF),
            Color::AccentTint => (0xE4, 0xEB, 0xFA, 0xFF),
            Color::Graphite => (0x3F, 0x3F, 0x46, 0xFF),
            Color::Success => (0x04, 0x78, 0x57, 0xFF),
            Color::SuccessTint => (0xDC, 0xF2, 0xE7, 0xFF),
            Color::Warning => (0xC2, 0x41, 0x0C, 0xFF),
            Color::WarningTint => (0xFC, 0xE9, 0xDE, 0xFF),
            Color::Danger => (0xBE, 0x12, 0x3C, 0xFF),
            Color::DangerTint => (0xFC, 0xE5, 0xEA, 0xFF),
            Color::Hairline => (0x06, 0x05, 0x03, 0x24),
            Color::HairlineStrong => (0x0C, 0x0A, 0x06, 0x47),
            Color::Shadow => (0x04, 0x04, 0x02, 0x1A),
        }
    }
}

/// How a widget is painted in one of its states. Widths are in tenths of a
/// point.
#[derive(Debug, Clone, Copy, PartialEq, Eq, Structural)]
pub struct WidgetPaint {
    pub fill: Color,
    pub outline: Color,
    pub outline_tenths: u8,
    pub ink: Color,
    pub ink_tenths: u8,
    pub expansion: u8,
}

/// Where each token goes.
#[derive(Debug, Clone, Copy, PartialEq, Eq, Structural)]
pub struct Visuals {
    pub noninteractive: WidgetPaint,
    pub inactive: WidgetPaint,
    pub hovered: WidgetPaint,
    pub active: WidgetPaint,
    pub open: WidgetPaint,
    /// Behind selected text.
    pub selection: Color,
    pub selection_ink: Color,
    pub hyperlink: Color,
    pub panel_fill: Color,
    pub window_fill: Color,
    pub window_stroke: Color,
    pub shadow: Color,
    pub striped_rows: Color,
    pub wells: Color,
    pub text_edit: Color,
    pub code: Color,
    pub warn: Color,
    pub error: Color,
    pub weak_text: Color,
    pub cursor: Color,
}

/// The rules of the paper: white only where one can type, no text lighter
/// than the secondary ink, and cool selection and links.
pub open spec fn honors_the_paper(v: Visuals) -> bool {
    &&& v.text_edit == PAPER_3
    &&& v.panel_fill != PAPER_3 && v.window_fill != PAPER_3 && v.wells != PAPER_3 && v.striped_rows
        != PAPER_3 && v.code != PAPER_3
    &&& v.hyperlink == ACCENT
    &&& v.selection == ACCENT_TINT
    &&& v.hovered.fill == PAPER_TINT
    &&& v.inactive.outline == INK_MUTED
    &&& v.weak_text == INK_SECONDARY
    &&& v.noninteractive.ink == INK_PRIMARY && v.inactive.ink == INK_PRIMARY && v.hovered.ink
        == INK_PRIMARY && v.active.ink == INK_PRIMARY && v.open.ink == INK_PRIMARY
}

/// The mapping of the token set onto the interface.
pub fn visuals() -> (v: Visuals)
    ensures
        honors_the_paper(v),
        v.noninteractive == (WidgetPaint {
            fill: PAPER_2,
            outline: HAIRLINE,
            outline_tenths: 10,
            ink: INK_PRIMARY,
            ink_tenths: 10,
            expansion: 0,
        }),
        v.inactive == (WidgetPaint {
            fill: PAPER_3,
            outline: INK_MUTED,
            outline_tenths: 10,
            ink: INK_PRIMARY,
            ink_tenths: 10,
            expansion: 0,
        }),
        v.hovered == (WidgetPaint {
            fill: PAPER_TINT,
            outline: ACCENT,
            outline_tenths: 10,
            ink: INK_PRIMARY,
            ink_tenths: 15,
            expansion: 1,
        }),
        v.active == (WidgetPaint {
            fill: PAPER_TINT,
            outline: ACCENT_HOVER,
            outline_tenths: 15,
            ink: INK_PRIMARY,
            ink_tenths: 20,
            expansion: 1,
        }),
        v.open == (WidgetPaint {
            fill: PAPER_TINT,
            outline: ACCENT,
            outline_tenths: 10,
            ink: INK_PRIMARY,
            ink_tenths: 10,
            expansion: 0,
        }),
        v.selection_ink == ACCENT,
        v.panel_fill == PAPER_1,
        v.window_fill == PAPER_2,
        v.window_stroke == HAIRLINE_STRONG,
        v.shadow == SHADOW,
        v.striped_rows == PAPER_0 && v.wells == PAPER_0 && v.code == PAPER_0,
        v.warn == WARNING,
        v.error == DANGER,
        v.cursor == ACCENT,
{
    Visuals {
        noninteractive: WidgetPaint {
            fill: PAPER_2,
            outline: HAIRLINE,
            outline_tenths: 10,
            ink: INK_PRIMARY,
            ink_tenths: 10,
            expansion: 0,
        },
        inactive: WidgetPaint {
            fill: PAPER_3,
            outline: INK_MUTED,
            outline_tenths: 10,
            ink: INK_PRIMARY,
            ink_tenths: 10,
            expansion: 0,
        },
        hovered: WidgetPaint {
            fill: PAPER_TINT,
            outline: ACCENT,
            outline_tenths: 10,
            ink: INK_PRIMARY,
            ink_tenths: 15,
            expansion: 1,
        },
        active: WidgetPaint {
            fill: PAPER_TINT,
            outline: ACCENT_HOVER,
            outline_tenths: 15,
            ink: INK_PRIMARY,
            ink_tenths: 20,
            expansion: 1,
        },
        open: WidgetPaint {
            fill: PAPER_TINT,
            outline: ACCENT,
            outline_tenths: 10,
            ink: INK_PRIMARY,
            ink_tenths: 10,
            expansion: 0,
        },
        selection: ACCENT_TINT,
        selection_ink: ACCENT,
        hyperlink: ACCENT,
        panel_fill: PAPER_1,
        window_fill: PAPER_2,
        window_stroke: HAIRLINE_STRONG,
        shadow: SHADOW,
        striped_rows: PAPER_0,
        wells: PAPER_0,
        text_edit: PAPER_3,
        code: PAPER_0,
        warn: WARNING,
        error: DANGER,
        weak_text: INK_SECONDARY,
        cursor: ACCENT,
    }
}

} // verus!
