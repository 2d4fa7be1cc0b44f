//! Rendering of compiled runs with terminal escape codes, through
//! nu-ansi-term.

use crate::colors::{ColorValue, NamedColor};
use crate::errors::TranslateError;
use crate::markup::{
    compile_markup, marker, spec_compile, CompileOutcome, SpecRun, StyleDirective, StyledRun,
};
use crate::strutil::{contains_sub, split_sub};
use nu_ansi_term::Color;
use nu_ansi_term::Color::{
    Black, Blue, Cyan, DarkGray, Fixed, Green, LightBlue, LightCyan, LightGray, LightGreen,
    LightMagenta, LightPurple, LightRed, LightYellow, Magenta, Purple, Red, Rgb, White, Yellow,
};
use crate::colors::NamedColor as Nc;
use vstd::prelude::*;

verus! {

#[verifier::external_type_specification]
#[verifier::external_body]
pub struct ExColor(Color);

/// A directive with no flags and no colors paints text unchanged.
pub open spec fn is_plain_directive(st: StyleDirective) -> bool {
    st == StyleDirective::spec_plain()
}

/// The escape-coded form of one run of text under one style directive.
pub uninterp spec fn painted(text: Seq<char>, style: StyleDirective) -> Seq<char>;

/// The concatenation of the runs' escape-coded forms.
pub open spec fn rendered(runs: Seq<SpecRun>) -> Seq<char>
    decreases runs.len(),
{
    if runs.len() == 0 {
        Seq::<char>::empty()
    } else {
        painted(runs[0].text, runs[0].style) + rendered(runs.drop_first())
    }
}

/// Relies on `nu_ansi_term::Color`'s variants: maps each color of the
/// library one-for-one onto the crate's corresponding variant.
#[verifier::external_body]
fn ansi_color_of(c: &ColorValue) -> Color {
    match c {
        ColorValue::Named(n) => match n {
            Nc::Black => Black, Nc::Blue => Blue, Nc::Cyan => Cyan, Nc::DarkGray => DarkGray,
            Nc::DefaultColor => Color::Default, Nc::Green => Green, Nc::LightBlue => LightBlue,
            Nc::LightCyan => LightCyan, Nc::LightGray => LightGray, Nc::LightGreen => LightGreen,
            Nc::LightMagenta => LightMagenta, Nc::LightPurple => LightPurple, Nc::LightRed => LightRed,
            Nc::LightYellow => LightYellow, Nc::Magenta => Magenta, Nc::Purple => Purple,
            Nc::Red => Red, Nc::White => White, Nc::Yellow => Yellow,
        },
        ColorValue::Indexed(i) => Fixed(*i),
        ColorValue::Rgb(r, g, b) => Rgb(*r, *g, *b),
    }
}

/// Relies on `nu_ansi_term::Style::paint` and the `Display` of the
/// painted string: the escape-coded form (prefix codes, the text, a reset
/// suffix) depends on the flags, the colors and the text alone, and a
/// style with no flags and no colors writes the text unchanged.
#[verifier::external_body]
fn paint_run(text: &str, st: &StyleDirective) -> (r: String)
    ensures
        r@ == painted(text@, *st),
        is_plain_directive(*st) ==> r@ == text@,
{
    let mut s = nu_ansi_term::Style::new();
    s.is_bold = st.bold; s.is_dimmed = st.dimmed; s.is_italic = st.italic;
    s.is_underline = st.underline; s.is_strikethrough = st.strikethrough;
    s.is_hidden = st.hidden; s.is_blink = st.blink; s.is_reverse = st.reverse;
    s.foreground = match &st.foreground { Some(c) => Some(ansi_color_of(c)), None => None };
    s.background = match &st.background { Some(c) => Some(ansi_color_of(c)), None => None };
    format!("{}", s.paint(text))
}

/// Compiles a string's styling markup and renders the runs with escape
/// codes.  A string without the `(ansi ` marker comes back unchanged.
pub fn ansify_string(input: &String) -> (r: Result<String, TranslateError>)
    ensures
        match spec_compile(input@) {
            CompileOutcome::Runs(rs) => r matches Ok(s) && s@ == rendered(rs),
            CompileOutcome::MarkupErr(c) => r matches Err(TranslateError::MarkupSyntax(e)) && e@
                == c,
            CompileOutcome::ColorErr(tok) => r matches Err(TranslateError::ColorParse(e)) && e@
                == tok,
        },
        !contains_sub(input@, marker()) ==> (r matches Ok(s) && s@ == input@),
{
    let runs = match compile_markup(input.as_str()) {
        Ok(rs) => rs,
        Err(e) => {
            proof {
                if !contains_sub(input@, marker()) {
                    reveal_strlit("(ansi ");
                    crate::strutil::lemma_split_sub_nonempty(input@, marker());
                    let ps = split_sub(input@, marker());
                    assert(ps =~= seq![input@]);
                    assert(crate::markup::spec_compile_from(ps, 1) == CompileOutcome::Runs(Seq::<
                        SpecRun,
                    >::empty()));
                }
            }
            return Err(e);
        },
    };
    let ghost rs = runs@.map_values(|x: StyledRun| x@);
    let mut out = String::new();
    let mut i: usize = 0;
    assert(rs.skip(0) =~= rs);
    while i < runs.len()
        invariant
            0 <= i <= runs.len(),
            rs == runs@.map_values(|x: StyledRun| x@),
            rendered(rs) == out@ + rendered(rs.skip(i as int)),
            forall|k: int|
                0 <= k < i && is_plain_directive(rs[k].style) ==> painted(
                    #[trigger] rs[k].text,
                    rs[k].style,
                ) == rs[k].text,
        decreases runs.len() - i,
    {
        assert(rs[i as int] == runs@[i as int]@);
        let piece = paint_run(runs[i].text.as_str(), &runs[i].style);
        out.append(piece.as_str());
        proof {
            assert(rs.skip(i as int)[0] == rs[i as int]);
            assert(rs.skip(i as int).drop_first() =~= rs.skip(i as int + 1));
        }
        i += 1;
    }
    assert(rs.skip(runs@.len() as int) =~= Seq::<SpecRun>::empty());
    assert(out@ + Seq::<char>::empty() =~= out@);
    proof {
        if !contains_sub(input@, marker()) {
            reveal_strlit("(ansi ");
            assert(split_sub(input@, marker()) == seq![input@]) by {
                crate::strutil::lemma_split_sub_nonempty(input@, marker());
            }
            let ps = split_sub(input@, marker());
            assert(crate::markup::spec_compile_from(ps, 1) == CompileOutcome::Runs(Seq::<
                SpecRun,
            >::empty()));
            assert(rs =~= seq![SpecRun { text: input@, style: StyleDirective::spec_plain() }]);
            assert(rendered(rs.drop_first()) =~= Seq::<char>::empty());
            assert(rendered(rs) =~= painted(input@, StyleDirective::spec_plain()) + Seq::<
                char,
            >::empty());
            assert(is_plain_directive(rs[0].style));
            assert(painted(rs[0].text, rs[0].style) == rs[0].text);
            assert(rendered(rs) =~= input@);
        }
    }
    Ok(out)
}

} // verus!
