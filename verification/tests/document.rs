use math_core::mmlc::ast::{render_math, Node};
use math_core::mmlc::display::Display;
use math_core::mmlc::document::{
    latex_to_mathml, overlapping_block_delimiters, replace, replace_delimited, ReplaceError,
};

fn tag(latex: &str, display: Display) -> Result<String, String> {
    if latex.contains("bad") {
        return Err(format!("cannot convert {}", latex));
    }
    Ok(format!("<{}>{}</{}>", display.as_str(), latex, display.as_str()))
}

#[test]
fn replace_inline_and_block() {
    let input = "$E = m c^2$ is famous.\nIn fact, $$E = \\sqrt{ m^2 c^4 + p^2 c^2 } ,$$ holds.";
    let output = replace(input, tag).unwrap();
    assert_eq!(
        output,
        "<inline>E = m c^2</inline> is famous.\nIn fact, <block>E = \\sqrt{ m^2 c^4 + p^2 c^2 } ,</block> holds."
    );
}

#[test]
fn replace_without_formulas_keeps_text() {
    assert_eq!(replace("no formula here", tag).unwrap(), "no formula here");
    assert_eq!(replace("", tag).unwrap(), "");
}

#[test]
fn replace_odd_single_dollar() {
    assert_eq!(replace("costs $3.", tag), Err(ReplaceError::InvalidNumberOfDollarSigns));
}

#[test]
fn replace_odd_double_dollar() {
    assert_eq!(replace("$$x$$ and $$y", tag), Err(ReplaceError::InvalidNumberOfDollarSigns));
}

#[test]
fn replace_conversion_error() {
    assert_eq!(
        replace("$a$ then $bad$ then $c$", tag),
        Err(ReplaceError::Conversion("cannot convert bad".to_string()))
    );
}

#[test]
fn replace_adjacent_formulas() {
    assert_eq!(
        replace("$a$ $$b$$ $c$", tag).unwrap(),
        "<inline>a</inline> <block>b</block> <inline>c</inline>"
    );
    assert_eq!(replace("$$$$", tag), Err(ReplaceError::InvalidNumberOfDollarSigns));
}

#[test]
fn replace_empty_formula() {
    assert_eq!(replace("x$$ $$y", tag).unwrap(), "x<block> </block>y");
    // `$$` is read as one block delimiter before any `$` is read.
    assert_eq!(replace("[$$]", tag), Err(ReplaceError::InvalidNumberOfDollarSigns));
    assert_eq!(replace_delimited("[$$]", false, Display::Inline, &tag).unwrap(), "[<inline></inline>]");
}

#[test]
fn replace_multibyte_text() {
    assert_eq!(replace("α $β$ γ", tag).unwrap(), "α <inline>β</inline> γ");
}

#[test]
fn replace_delimited_single_pass() {
    assert_eq!(
        replace_delimited("$$a$$ $b$", true, Display::Block, &tag).unwrap(),
        "<block>a</block> $b$"
    );
    assert_eq!(
        replace_delimited("$a$ $b$", false, Display::Inline, &tag).unwrap(),
        "<inline>a</inline> <inline>b</inline>"
    );
    assert_eq!(
        replace_delimited("$a$ $b", false, Display::Inline, &tag),
        Err(ReplaceError::InvalidNumberOfDollarSigns)
    );
}

#[test]
fn render_math_wraps_nodes() {
    let nodes = vec![Node::Number("1".to_string()), Node::SingleLetterIdent('x', None)];
    assert_eq!(
        render_math(&nodes, Display::Inline),
        "<math xmlns=\"http://www.w3.org/1998/Math/MathML\" display=\"inline\">\n<mn>1</mn>\n<mi>x</mi>\n</math>"
    );
    assert_eq!(
        render_math(&Vec::new(), Display::Block),
        "<math xmlns=\"http://www.w3.org/1998/Math/MathML\" display=\"block\">\n</math>"
    );
}

fn parse_letters_and_digits(latex: &str) -> Result<Vec<Node>, String> {
    if latex.is_empty() {
        return Err("empty formula".to_string());
    }
    Ok(latex
        .chars()
        .map(|c| {
            if c.is_ascii_digit() {
                Node::Number(c.to_string())
            } else {
                Node::SingleLetterIdent(c, None)
            }
        })
        .collect())
}

#[test]
fn latex_to_mathml_with_parser() {
    assert_eq!(
        latex_to_mathml("x2", Display::Block, parse_letters_and_digits).unwrap(),
        "<math xmlns=\"http://www.w3.org/1998/Math/MathML\" display=\"block\">\n<mi>x</mi>\n<mn>2</mn>\n</math>"
    );
    assert_eq!(
        latex_to_mathml("", Display::Inline, parse_letters_and_digits),
        Err("empty formula".to_string())
    );
}

#[test]
fn replace_with_latex_to_mathml() {
    let out = replace("a $x$ b", |latex: &str, display: Display| {
        latex_to_mathml(latex, display, parse_letters_and_digits)
    })
    .unwrap();
    assert_eq!(
        out,
        "a <math xmlns=\"http://www.w3.org/1998/Math/MathML\" display=\"inline\">\n<mi>x</mi>\n</math> b"
    );
    assert_eq!(
        replace("a $$$$ b", |latex: &str, display: Display| {
            latex_to_mathml(latex, display, parse_letters_and_digits)
        }),
        Err(ReplaceError::InvalidNumberOfDollarSigns)
    );
}

#[test]
fn detects_overlapping_block_delimiters() {
    assert!(overlapping_block_delimiters("$$$ x $$$"));
    assert!(overlapping_block_delimiters("a$$$b"));
    assert!(!overlapping_block_delimiters("$$x$$ $y$"));
    assert!(!overlapping_block_delimiters("$$$$"));
    assert!(!overlapping_block_delimiters(""));
}

#[test]
fn replace_odd_single_dollars_without_block_formulas() {
    assert_eq!(replace("a$b", tag), Err(ReplaceError::InvalidNumberOfDollarSigns));
    assert_eq!(replace("$$x$$ and a$b", tag), Err(ReplaceError::InvalidNumberOfDollarSigns));
}
