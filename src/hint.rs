//! How the line editor styles a history hint, from the `[effects]` settings.
use vstd::prelude::*;
use crate::config::EffectsCtx;
use crate::text::same_text;

verus! {

/// The one emphasis a hint gets.
#[derive(PartialEq, Eq, Structural, Debug, Clone, Copy)]
pub enum Emphasis {
    Plain,
    Underline,
    Bold,
    Dimmed,
}

/// The color of a hint.
#[derive(PartialEq, Eq, Structural, Debug, Clone, Copy)]
pub enum HintColor {
    Black,
    Red,
    Green,
    Yellow,
    Blue,
    Purple,
    Cyan,
    White,
    True(u8, u8, u8),
}

/// The look of a hint.
#[derive(PartialEq, Eq, Structural, Debug, Clone, Copy)]
pub struct HintLook {
    pub emphasis: Emphasis,
    pub color: HintColor,
}

/// What `str::to_lowercase` makes of a string.
pub uninterp spec fn lower_of(s: Seq<char>) -> Seq<char>;

/// Relies on `str::to_lowercase`: the result depends on the characters alone.
#[verifier::external_body]
fn lowercase(s: &str) -> (r: String)
    ensures
        r@ == lower_of(s@),
{
    s.to_lowercase()
}

/// The color a lowercase color name stands for; red for an unknown name.
pub open spec fn color_named(lowered: Seq<char>) -> HintColor {
    if lowered == "black"@ {
        HintColor::Black
    } else if lowered == "green"@ {
        HintColor::Green
    } else if lowered == "yellow"@ {
        HintColor::Yellow
    } else if lowered == "blue"@ {
        HintColor::Blue
    } else if lowered == "purple"@ {
        HintColor::Purple
    } else if lowered == "cyan"@ {
        HintColor::Cyan
    } else if lowered == "white"@ {
        HintColor::White
    } else {
        HintColor::Red
    }
}

/// The color a lowercase color name stands for; red for an unknown name.
pub fn color_of_lowered(lowered: &str) -> (r: HintColor)
    ensures
        r == color_named(lowered@),
{
    if same_text(lowered, "black") {
        HintColor::Black
    } else if same_text(lowered, "green") {
        HintColor::Green
    } else if same_text(lowered, "yellow") {
        HintColor::Yellow
    } else if same_text(lowered, "blue") {
        HintColor::Blue
    } else if same_text(lowered, "purple") {
        HintColor::Purple
    } else if same_text(lowered, "cyan") {
        HintColor::Cyan
    } else if same_text(lowered, "white") {
        HintColor::White
    } else {
        HintColor::Red
    }
}

/// The look of a hint: underline before bold before dimmed; a true color,
/// where enabled and given, over the named color; red by default.
pub open spec fn hint_look_of(effects: Option<EffectsCtx>) -> HintLook {
    match effects {
        None => HintLook { emphasis: Emphasis::Plain, color: HintColor::Red },
        Some(e) => {
            let emphasis = if e.underlined == Some(true) {
                Emphasis::Underline
            } else if e.bold == Some(true) {
                Emphasis::Bold
            } else if e.dimmed == Some(true) {
                Emphasis::Dimmed
            } else {
                Emphasis::Plain
            };
            let color = if e.truecolors == Some(true) && e.true_suggestion_color is Some {
                let c = e.true_suggestion_color->0;
                HintColor::True(c@[0], c@[1], c@[2])
            } else {
                match e.suggestion_color {
                    Some(name) => color_named(lower_of(name@)),
                    None => HintColor::Red,
                }
            };
            HintLook { emphasis, color }
        },
    }
}

/// The look of a hint under the given effects.
pub fn hint_look(effects: &Option<EffectsCtx>) -> (r: HintLook)
    ensures
        r == hint_look_of(*effects),
{
    match effects {
        None => HintLook { emphasis: Emphasis::Plain, color: HintColor::Red },
        Some(e) => {
            let emphasis = if e.underlined == Some(true) {
                Emphasis::Underline
            } else if e.bold == Some(true) {
                Emphasis::Bold
            } else if e.dimmed == Some(true) {
                Emphasis::Dimmed
            } else {
                Emphasis::Plain
            };
            let color = match (e.truecolors, e.true_suggestion_color) {
                (Some(true), Some(c)) => HintColor::True(c[0], c[1], c[2]),
                _ => match &e.suggestion_color {
                    Some(name) => color_of_lowered(lowercase(name.as_str()).as_str()),
                    None => HintColor::Red,
                },
            };
            HintLook { emphasis, color }
        },
    }
}

} // verus!
