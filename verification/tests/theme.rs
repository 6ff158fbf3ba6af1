//! The paper palette.

use open_ntrip_client::ui::theme::{
    visuals, Color, ACCENT, ACCENT_HOVER, ACCENT_TINT, DANGER, INK_MUTED, INK_PRIMARY,
    INK_SECONDARY, PAPER_0, PAPER_1, PAPER_2, PAPER_3, PAPER_TINT, SUCCESS, WARNING,
};

/// Relative luminance per WCAG, from sRGB bytes.
fn luminance(c: Color) -> f64 {
    let ch = |v: u8| {
        let v = f64::from(v) / 255.0;
        if v <= 0.04045 {
            v / 12.92
        } else {
            ((v + 0.055) / 1.055).powf(2.4)
        }
    };
    let (r, g, b, _) = c.rgba();
    0.2126 * ch(r) + 0.7152 * ch(g) + 0.0722 * ch(b)
}

fn contrast(a: Color, b: Color) -> f64 {
    let (l1, l2) = (luminance(a), luminance(b));
    (l1.max(l2) + 0.05) / (l1.min(l2) + 0.05)
}

/// Contrast is checked against PAPER_1, not white. Ink and every
/// semantic/interactive foreground must clear WCAG AA (4.5:1) on the base
/// paper.
#[test]
fn foregrounds_clear_aa_on_base_paper() {
    for (name, c) in [
        ("ink-primary", INK_PRIMARY),
        ("ink-secondary", INK_SECONDARY),
        ("accent", ACCENT),
        ("accent-hover", ACCENT_HOVER),
        ("success", SUCCESS),
        ("warning", WARNING),
        ("danger", DANGER),
    ] {
        let ratio = contrast(c, PAPER_1);
        assert!(ratio >= 4.5, "{name} is {ratio:.2}:1 on paper-1");
    }
}

/// The paper stack must strictly lighten toward the viewer - that
/// ordering IS the elevation model.
#[test]
fn paper_stack_lightens_upward() {
    let steps = [PAPER_0, PAPER_1, PAPER_2, PAPER_3];
    for pair in steps.windows(2) {
        assert!(luminance(pair[0]) < luminance(pair[1]));
    }
}

/// White is reserved for editable surfaces; the widget mapping must not
/// leak it anywhere else, and text on paper must never be pure black.
#[test]
fn visuals_honor_the_paper_rules() {
    let v = visuals();
    assert_eq!(v.text_edit, PAPER_3);
    assert_ne!(v.panel_fill, PAPER_3);
    assert_ne!(v.window_fill, PAPER_3);
    assert_ne!(v.wells, PAPER_3);
    assert_ne!(v.noninteractive.ink.rgba(), (0, 0, 0, 255));
    assert_eq!(v.hyperlink, ACCENT);
    // Text selection is the cool accent tint (visible on white inputs);
    // row hover/selection keeps the warm paper tint.
    assert_eq!(v.selection, ACCENT_TINT);
    assert_eq!(v.hovered.fill, PAPER_TINT);
    // Unfocused interactive outlines are the opaque non-text border.
    assert_eq!(v.inactive.outline, INK_MUTED);
    // Weak text (hints, placeholders, counters) takes the secondary ink, the
    // floor for text the user is meant to read.
    assert_eq!(v.weak_text, INK_SECONDARY);
}

/// The header band is a RECESSED paper-0 fill, darker than the window fill
/// and no lighter than the body stripes, so the elevation model never
/// inverts at the top of a table.
#[test]
fn header_band_is_recessed_below_window_and_stripes() {
    assert!(luminance(PAPER_0) < luminance(PAPER_2));
    // Never lighter than the striped body rows painted below it.
    let stripes = visuals().striped_rows;
    assert!(luminance(PAPER_0) <= luminance(stripes));
}

/// INK_MUTED's two legal roles - disabled-control ink and widget
/// outlines - are large-text/non-text contexts, so the token must clear
/// the WCAG 3:1 floor on every surface it can border or sit on.
#[test]
fn muted_clears_non_text_floor_everywhere() {
    for (name, paper) in [
        ("paper-0", PAPER_0),
        ("paper-1", PAPER_1),
        ("paper-2", PAPER_2),
        ("paper-3", PAPER_3),
        ("paper-tint", PAPER_TINT),
    ] {
        let ratio = contrast(INK_MUTED, paper);
        assert!(ratio >= 3.0, "ink-muted is {ratio:.2}:1 on {name}");
    }
}

/// The text-selection band must be COOL: warm papers all have R >= B,
/// so a blue-leaning tint stays distinguishable by hue on every step
/// (and on white, where the warm PAPER_TINT washes out at 1.10:1).
#[test]
fn selection_band_is_cool_on_warm_paper() {
    let red = |c: Color| c.rgba().0;
    let blue = |c: Color| c.rgba().2;
    assert!(blue(ACCENT_TINT) > red(ACCENT_TINT));
    for paper in [PAPER_0, PAPER_1, PAPER_2, PAPER_TINT] {
        assert!(red(paper) >= blue(paper));
    }
    // And it still darkens white more than the paper tint does.
    assert!(contrast(ACCENT_TINT, PAPER_3) > contrast(PAPER_TINT, PAPER_3));
}
