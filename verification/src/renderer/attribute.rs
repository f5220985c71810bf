//! The attributes that the nodes of a formula carry: letter forms, operator
//! attributes and spacing, styles, sizes, row attributes, text styles and
//! enclosure notations.
use vstd::prelude::*;

verus! {

/// How a single-letter identifier is set.
#[derive(Debug, Clone, Copy, PartialEq, Eq, Structural)]
pub enum LetterAttr {
    Default,
    Upright,
    ForcedUpright,
}

/// An attribute of an operator.
#[derive(Debug, Clone, Copy, PartialEq, Eq, Structural)]
pub enum OpAttr {
    StretchyFalse,
    NoMovableLimits,
    ForceMovableLimits,
    FormPrefix,
}

/// Spacing around an operator, in multiples of 1/18 em.
#[derive(Debug, Clone, Copy, PartialEq, Eq, Structural)]
pub enum MathSpacing {
    Zero,
    ThreeMu,
    FourMu,
    FiveMu,
}

/// The math style of a part of a formula.
#[derive(Debug, Clone, Copy, PartialEq, Eq, Structural)]
pub enum Style {
    Display,
    Text,
    Script,
    ScriptScript,
}

/// An attribute of a fraction.
#[derive(Debug, Clone, Copy, PartialEq, Eq, Structural)]
pub enum FracAttr {
    DisplayStyleTrue,
    DisplayStyleFalse,
}

/// The size of a sized parenthesis.
#[derive(Debug, Clone, Copy, PartialEq, Eq, Structural)]
pub enum Size {
    Scale1,
    Scale2,
    Scale3,
    Scale4,
}

/// An attribute of a row: none (`NoAttr`), a style, or a colour.
#[derive(Debug, Clone, Copy, PartialEq, Eq, Structural)]
pub enum RowAttr {
    NoAttr,
    Style(Style),
    Color(u8, u8, u8),
}

/// The style of a piece of text.
#[derive(Debug, Clone, Copy, PartialEq, Eq, Structural)]
pub enum HtmlTextStyle {
    Bold,
    Italic,
    Emphasis,
    Typewriter,
    SmallCaps,
}

/// The lines that enclose a part of a formula.
#[derive(Debug, Clone, Copy, PartialEq, Eq, Structural)]
pub struct Notation {
    pub up: bool,
    pub down: bool,
    pub horizontal: bool,
}

impl OpAttr {
    /// The attribute as it stands in an `<mo>` tag.
    pub open spec fn text(&self) -> Seq<char> {
        match self {
            OpAttr::StretchyFalse => " stretchy=\"false\""@,
            OpAttr::NoMovableLimits => " movablelimits=\"false\""@,
            OpAttr::ForceMovableLimits => " movablelimits=\"true\""@,
            OpAttr::FormPrefix => " form=\"prefix\""@,
        }
    }

    pub fn as_str(&self) -> (r: &'static str)
        ensures
            r@ == self.text(),
    {
        match self {
            OpAttr::StretchyFalse => " stretchy=\"false\"",
            OpAttr::NoMovableLimits => " movablelimits=\"false\"",
            OpAttr::ForceMovableLimits => " movablelimits=\"true\"",
            OpAttr::FormPrefix => " form=\"prefix\"",
        }
    }
}

impl MathSpacing {
    /// The width of the spacing, as an attribute value.
    pub open spec fn text(&self) -> Seq<char> {
        match self {
            MathSpacing::Zero => "0"@,
            MathSpacing::ThreeMu => "0.1667em"@,
            MathSpacing::FourMu => "0.2222em"@,
            MathSpacing::FiveMu => "0.2778em"@,
        }
    }

    pub fn as_str(&self) -> (r: &'static str)
        ensures
            r@ == self.text(),
    {
        match self {
            MathSpacing::Zero => "0",
            MathSpacing::ThreeMu => "0.1667em",
            MathSpacing::FourMu => "0.2222em",
            MathSpacing::FiveMu => "0.2778em",
        }
    }
}

impl Style {
    /// The attributes that set the style.
    pub open spec fn text(&self) -> Seq<char> {
        match self {
            Style::Display => " displaystyle=\"true\" scriptlevel=\"0\""@,
            Style::Text => " displaystyle=\"false\" scriptlevel=\"0\""@,
            Style::Script => " displaystyle=\"false\" scriptlevel=\"1\""@,
            Style::ScriptScript => " displaystyle=\"false\" scriptlevel=\"2\""@,
        }
    }

    pub fn as_str(&self) -> (r: &'static str)
        ensures
            r@ == self.text(),
    {
        match self {
            Style::Display => " displaystyle=\"true\" scriptlevel=\"0\"",
            Style::Text => " displaystyle=\"false\" scriptlevel=\"0\"",
            Style::Script => " displaystyle=\"false\" scriptlevel=\"1\"",
            Style::ScriptScript => " displaystyle=\"false\" scriptlevel=\"2\"",
        }
    }
}

impl FracAttr {
    /// The attribute as it stands in an `<mfrac>` tag.
    pub open spec fn text(&self) -> Seq<char> {
        match self {
            FracAttr::DisplayStyleTrue => " displaystyle=\"true\""@,
            FracAttr::DisplayStyleFalse => " displaystyle=\"false\""@,
        }
    }

    pub fn as_str(&self) -> (r: &'static str)
        ensures
            r@ == self.text(),
    {
        match self {
            FracAttr::DisplayStyleTrue => " displaystyle=\"true\"",
            FracAttr::DisplayStyleFalse => " displaystyle=\"false\"",
        }
    }
}

impl Size {
    /// The height of the parenthesis, as an attribute value.
    pub open spec fn text(&self) -> Seq<char> {
        match self {
            Size::Scale1 => "1.2em"@,
            Size::Scale2 => "1.623em"@,
            Size::Scale3 => "2.047em"@,
            Size::Scale4 => "2.470em"@,
        }
    }

    pub fn as_str(&self) -> (r: &'static str)
        ensures
            r@ == self.text(),
    {
        match self {
            Size::Scale1 => "1.2em",
            Size::Scale2 => "1.623em",
            Size::Scale3 => "2.047em",
            Size::Scale4 => "2.470em",
        }
    }
}

impl HtmlTextStyle {
    /// The tags that open text of this style.
    pub open spec fn open_text(&self) -> Seq<char> {
        match self {
            HtmlTextStyle::Bold => "<mtext><b>"@,
            HtmlTextStyle::Italic => "<mtext><i>"@,
            HtmlTextStyle::Emphasis => "<mtext><em>"@,
            HtmlTextStyle::Typewriter => "<mtext><code>"@,
            HtmlTextStyle::SmallCaps => "<mtext><span style=\"font-variant-caps: small-caps\">"@,
        }
    }

    /// The tags that close text of this style.
    pub open spec fn close_text(&self) -> Seq<char> {
        match self {
            HtmlTextStyle::Bold => "</b></mtext>"@,
            HtmlTextStyle::Italic => "</i></mtext>"@,
            HtmlTextStyle::Emphasis => "</em></mtext>"@,
            HtmlTextStyle::Typewriter => "</code></mtext>"@,
            HtmlTextStyle::SmallCaps => "</span></mtext>"@,
        }
    }

    pub fn tags(&self) -> (r: (&'static str, &'static str))
        ensures
            r.0@ == self.open_text(),
            r.1@ == self.close_text(),
    {
        match self {
            HtmlTextStyle::Bold => ("<mtext><b>", "</b></mtext>"),
            HtmlTextStyle::Italic => ("<mtext><i>", "</i></mtext>"),
            HtmlTextStyle::Emphasis => ("<mtext><em>", "</em></mtext>"),
            HtmlTextStyle::Typewriter => ("<mtext><code>", "</code></mtext>"),
            HtmlTextStyle::SmallCaps => (
                "<mtext><span style=\"font-variant-caps: small-caps\">",
                "</span></mtext>",
            ),
        }
    }
}

} // verus!
