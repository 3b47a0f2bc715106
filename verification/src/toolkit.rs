//! What the status bar around a module provides: texts, colours and frames,
//! each as a function that the module calls.

use crate::placeholders::Placeholders;
use crate::reset::Instant;
use vstd::prelude::*;

verus! {

/// The colours of a theme that the tooltip uses.
#[derive(Debug)]
pub struct Theme {
    pub blue: String,
    pub orange: String,
    pub dim: String,
}

/// A line of a tooltip.
#[derive(Debug)]
pub enum TooltipLine {
    Center(String),
    Sep,
    Body(String),
}

/// What a [`TooltipLine`] shows.
pub enum LineView {
    Center(Seq<char>),
    Sep,
    Body(Seq<char>),
}

impl View for TooltipLine {
    type V = LineView;

    open spec fn view(&self) -> LineView {
        match *self {
            TooltipLine::Center(text) => LineView::Center(text@),
            TooltipLine::Sep => LineView::Sep,
            TooltipLine::Body(text) => LineView::Body(text@),
        }
    }
}

/// What the lines of a tooltip show.
pub open spec fn lines_view(lines: Seq<TooltipLine>) -> Seq<LineView> {
    lines.map_values(|line: TooltipLine| line@)
}

/// The functions that the status bar provides.
pub struct Toolkit<
    Countdown,
    Sanitize,
    Escape,
    Substitute,
    UpdatedAt,
    Bordered,
    SeverityFor,
    SeverityColor,
    ColorSpan,
    ClassOf,
> {
    /// Puts the time from now to an instant into words.
    pub countdown: Countdown,
    /// Makes text of unknown origin safe to show.
    pub sanitize: Sanitize,
    /// Escapes what has a meaning in markup.
    pub escape: Escape,
    /// Fills the placeholders of a format.
    pub substitute: Substitute,
    /// The time of day of an update, from now and the age of what is shown.
    pub updated_at: UpdatedAt,
    /// Puts the lines of a tooltip into a frame in the colours of a theme.
    pub bordered: Bordered,
    /// The severity of a percentage.
    pub severity_for: SeverityFor,
    /// The colour of a severity in a theme.
    pub severity_color: SeverityColor,
    /// Puts a text into a colour.
    pub color_span: ColorSpan,
    /// The style class of a severity.
    pub class_of: ClassOf,
}

/// The function may give that text for that text.
pub open spec fn text_given<F: Fn(&str) -> String>(
    f: F,
    input: Seq<char>,
    output: Seq<char>,
) -> bool {
    exists|s: &str, t: String| s@ == input && t@ == output && #[trigger] f.ensures((s,), t)
}

/// The function may give those words for the time from `now` to `at`.
pub open spec fn countdown_given<F: Fn(Option<Instant>, Instant) -> String>(
    f: F,
    at: Option<Instant>,
    now: Instant,
    output: Seq<char>,
) -> bool {
    exists|t: String| t@ == output && #[trigger] f.ensures((at, now), t)
}

/// The function may give that text for a format and the values of its
/// placeholders.
pub open spec fn substitution_given<F: Fn(&str, &Placeholders) -> String>(
    f: F,
    format: Seq<char>,
    values: Map<Seq<char>, Seq<char>>,
    output: Seq<char>,
) -> bool {
    exists|s: &str, v: &Placeholders, t: String|
        s@ == format && v@ == values && t@ == output && #[trigger] f.ensures((s, v), t)
}

/// The function may give that time of day for now and an age.
pub open spec fn update_given<Age, F: Fn(Instant, Age) -> String>(
    f: F,
    now: Instant,
    age: Age,
    output: Seq<char>,
) -> bool {
    exists|t: String| t@ == output && #[trigger] f.ensures((now, age), t)
}

/// The function may give that text for the lines of a tooltip and a theme.
pub open spec fn frame_given<F: Fn(&Vec<TooltipLine>, &Theme) -> String>(
    f: F,
    lines: Seq<LineView>,
    theme: Theme,
    output: Seq<char>,
) -> bool {
    exists|v: &Vec<TooltipLine>, t: String|
        lines_view(v@) == lines && t@ == output && #[trigger] f.ensures((v, &theme), t)
}

/// The function may give that colour for a severity and a theme.
pub open spec fn color_given<Severity, F: Fn(Severity, &Theme) -> String>(
    f: F,
    severity: Severity,
    theme: Theme,
    output: Seq<char>,
) -> bool {
    exists|t: String| t@ == output && #[trigger] f.ensures((severity, &theme), t)
}

/// The function may give that text for a colour and a text.
pub open spec fn span_given<F: Fn(&str, &str) -> String>(
    f: F,
    color: Seq<char>,
    text: Seq<char>,
    output: Seq<char>,
) -> bool {
    exists|c: &str, s: &str, t: String|
        c@ == color && s@ == text && t@ == output && #[trigger] f.ensures((c, s), t)
}

} // verus!
