//! The inline styling markup compiler.
//!
//! A string is split on the marker `(ansi `; the text before the first
//! marker becomes an unstyled run, and each following piece has the form
//! `<command>)<text>`.  The command is read as a set of independent flag
//! keywords (substring matches) plus zero or more `color[...]`
//! directives; the i-th `color` occurrence is paired with the i-th `]` of
//! the command.  When several directives address the same channel the
//! last one wins (last-writer-wins per channel).  A piece without `)`,
//! or a `color` occurrence without a matching `]`, is a markup syntax
//! error; a bad color token is a color parse error.

use crate::colors::{color_directive, spec_color_directive, ColorSpecResult, ColorValue};
use crate::errors::TranslateError;
use crate::strutil::{
    all_matches, char_positions, char_positions_exec, contains_str, contains_sub, find_all_exec,
    lemma_all_matches, lemma_char_positions, split_sub, split_sub_exec, upto_char, upto_char_exec,
};
use vstd::prelude::*;

verus! {

/// The styling of one run of text: eight independent flags and an
/// optional color per channel.
#[derive(Clone, Copy, PartialEq, Eq, Debug)]
pub struct StyleDirective {
    pub bold: bool,
    pub dimmed: bool,
    pub italic: bool,
    pub underline: bool,
    pub strikethrough: bool,
    pub hidden: bool,
    pub blink: bool,
    pub reverse: bool,
    pub foreground: Option<ColorValue>,
    pub background: Option<ColorValue>,
}

impl StyleDirective {
    /// The default directive: no flags, no colors.
    pub open spec fn spec_plain() -> StyleDirective {
        StyleDirective {
            bold: false,
            dimmed: false,
            italic: false,
            underline: false,
            strikethrough: false,
            hidden: false,
            blink: false,
            reverse: false,
            foreground: None,
            background: None,
        }
    }

    /// Builds the default directive.
    pub fn plain() -> (r: StyleDirective)
        ensures
            r == StyleDirective::spec_plain(),
    {
        StyleDirective {
            bold: false,
            dimmed: false,
            italic: false,
            underline: false,
            strikethrough: false,
            hidden: false,
            blink: false,
            reverse: false,
            foreground: None,
            background: None,
        }
    }
}

/// One compiled run: a span of text and the style that applies to it.
pub struct StyledRun {
    pub text: String,
    pub style: StyleDirective,
}

/// The mathematical value of a run.
pub ghost struct SpecRun {
    pub text: Seq<char>,
    pub style: StyleDirective,
}

impl View for StyledRun {
    type V = SpecRun;

    open spec fn view(&self) -> SpecRun {
        SpecRun { text: self.text@, style: self.style }
    }
}

/// The marker that opens a styling command.
pub open spec fn marker() -> Seq<char> {
    "(ansi "@
}

// ---------------------------------------------------------------------------
// Spec: command compilation
// ---------------------------------------------------------------------------

/// The flag keywords of a command: each is set if it occurs anywhere in
/// the command as a substring.
pub open spec fn spec_base_flags(cmd: Seq<char>) -> StyleDirective {
    StyleDirective {
        bold: contains_sub(cmd, "bold"@),
        dimmed: contains_sub(cmd, "dimmed"@),
        italic: contains_sub(cmd, "italic"@),
        underline: contains_sub(cmd, "underline"@),
        strikethrough: contains_sub(cmd, "strikethrough"@),
        hidden: contains_sub(cmd, "hidden"@),
        blink: contains_sub(cmd, "blink"@),
        reverse: contains_sub(cmd, "reverse"@),
        foreground: None,
        background: None,
    }
}

/// How the color directives of a command resolve: final colors per
/// channel, a syntax error, or a bad color token.
pub ghost enum ColorsOutcome {
    Done(Option<ColorValue>, Option<ColorValue>),
    MarkupErr,
    ColorErr(Seq<char>),
}

/// Processes the `t`-th and later color directives of `cmd`, pairing the
/// t-th `color` occurrence with the t-th `]`, in order; the last
/// directive of each channel wins.
pub open spec fn spec_colors_from(
    cmd: Seq<char>,
    t: int,
    fg: Option<ColorValue>,
    bg: Option<ColorValue>,
) -> ColorsOutcome
    decreases all_matches(cmd, "color"@, 0).len() - t,
    when 0 <= t <= all_matches(cmd, "color"@, 0).len()
{
    let o = all_matches(cmd, "color"@, 0);
    if t == o.len() {
        ColorsOutcome::Done(fg, bg)
    } else {
        let bs = char_positions(cmd, ']', 0);
        if t >= bs.len() {
            ColorsOutcome::MarkupErr
        } else if o[t] + 6 > bs[t] {
            ColorsOutcome::MarkupErr
        } else {
            match spec_color_directive(cmd.subrange(o[t] + 6, bs[t])) {
                ColorSpecResult::Bad(tok) => ColorsOutcome::ColorErr(tok),
                ColorSpecResult::Color(is_fg, cv) => spec_colors_from(
                    cmd,
                    t + 1,
                    if is_fg {
                        Some(cv)
                    } else {
                        fg
                    },
                    if is_fg {
                        bg
                    } else {
                        Some(cv)
                    },
                ),
            }
        }
    }
}

/// The style of one command, or the error it raises.
pub ghost enum StyleOutcome {
    Style(StyleDirective),
    MarkupErr(Seq<char>),
    ColorErr(Seq<char>),
}

/// Compiles a command string into a style directive.
pub open spec fn spec_command_style(cmd: Seq<char>) -> StyleOutcome {
    let base = spec_base_flags(cmd);
    match spec_colors_from(cmd, 0, None, None) {
        ColorsOutcome::Done(fg, bg) => StyleOutcome::Style(
            StyleDirective { foreground: fg, background: bg, ..base },
        ),
        ColorsOutcome::MarkupErr => StyleOutcome::MarkupErr(cmd),
        ColorsOutcome::ColorErr(tok) => StyleOutcome::ColorErr(tok),
    }
}

/// The run a piece after a marker compiles to: the command runs up to the
/// first `)`, the text is everything after it.
pub ghost enum RunOutcome {
    Run(SpecRun),
    MarkupErr(Seq<char>),
    ColorErr(Seq<char>),
}

pub open spec fn spec_piece_run(p: Seq<char>) -> RunOutcome {
    let j = upto_char(p, 0, ')');
    if j >= p.len() {
        RunOutcome::MarkupErr(p)
    } else {
        match spec_command_style(p.subrange(0, j)) {
            StyleOutcome::Style(st) => RunOutcome::Run(
                SpecRun { text: p.subrange(j + 1, p.len() as int), style: st },
            ),
            StyleOutcome::MarkupErr(c) => RunOutcome::MarkupErr(c),
            StyleOutcome::ColorErr(tok) => RunOutcome::ColorErr(tok),
        }
    }
}

/// What a whole string compiles to.
pub ghost enum CompileOutcome {
    Runs(Seq<SpecRun>),
    MarkupErr(Seq<char>),
    ColorErr(Seq<char>),
}

/// Compiles the pieces from index `k` on; the first failing piece wins.
pub open spec fn spec_compile_from(ps: Seq<Seq<char>>, k: int) -> CompileOutcome
    decreases ps.len() - k,
    when 1 <= k <= ps.len()
{
    if k == ps.len() {
        CompileOutcome::Runs(Seq::<SpecRun>::empty())
    } else {
        match spec_piece_run(ps[k]) {
            RunOutcome::Run(r) => match spec_compile_from(ps, k + 1) {
                CompileOutcome::Runs(rest) => CompileOutcome::Runs(seq![r] + rest),
                e => e,
            },
            RunOutcome::MarkupErr(c) => CompileOutcome::MarkupErr(c),
            RunOutcome::ColorErr(tok) => CompileOutcome::ColorErr(tok),
        }
    }
}

/// Compiles a whole string: the text before the first marker becomes an
/// unstyled run, each following piece one styled run.
pub open spec fn spec_compile(s: Seq<char>) -> CompileOutcome {
    let ps = split_sub(s, marker());
    match spec_compile_from(ps, 1) {
        CompileOutcome::Runs(rest) => CompileOutcome::Runs(
            seq![SpecRun { text: ps[0], style: StyleDirective::spec_plain() }] + rest,
        ),
        e => e,
    }
}

/// Prefixing already-compiled runs onto an outcome.
pub open spec fn prepend_runs(prefix: Seq<SpecRun>, o: CompileOutcome) -> CompileOutcome {
    match o {
        CompileOutcome::Runs(rest) => CompileOutcome::Runs(prefix + rest),
        e => e,
    }
}

// ---------------------------------------------------------------------------
// Exec
// ---------------------------------------------------------------------------

/// Compiles one command string into a style directive.
pub fn command_style(cmd: &str) -> (r: Result<StyleDirective, TranslateError>)
    ensures
        match r {
            Ok(st) => spec_command_style(cmd@) == StyleOutcome::Style(st),
            Err(TranslateError::MarkupSyntax(c)) => spec_command_style(cmd@)
                == StyleOutcome::MarkupErr(c@),
            Err(TranslateError::ColorParse(tok)) => spec_command_style(cmd@)
                == StyleOutcome::ColorErr(tok@),
            Err(_) => false,
        },
{
    proof {
        reveal_strlit("bold");
        reveal_strlit("dimmed");
        reveal_strlit("italic");
        reveal_strlit("underline");
        reveal_strlit("strikethrough");
        reveal_strlit("hidden");
        reveal_strlit("blink");
        reveal_strlit("reverse");
        reveal_strlit("color");
    }
    let base = StyleDirective {
        bold: contains_str(cmd, "bold"),
        dimmed: contains_str(cmd, "dimmed"),
        italic: contains_str(cmd, "italic"),
        underline: contains_str(cmd, "underline"),
        strikethrough: contains_str(cmd, "strikethrough"),
        hidden: contains_str(cmd, "hidden"),
        blink: contains_str(cmd, "blink"),
        reverse: contains_str(cmd, "reverse"),
        foreground: None,
        background: None,
    };
    assert(base == spec_base_flags(cmd@));
    let n = cmd.unicode_len();
    let o = find_all_exec(cmd, "color");
    let bs = char_positions_exec(cmd, ']');
    proof {
        lemma_all_matches(cmd@, "color"@, 0);
        lemma_char_positions(cmd@, ']', 0);
    }
    let ghost so = all_matches(cmd@, "color"@, 0);
    let ghost sbs = char_positions(cmd@, ']', 0);
    let mut fg: Option<ColorValue> = None;
    let mut bg: Option<ColorValue> = None;
    let mut t: usize = 0;
    while t < o.len()
        invariant
            0 <= t <= o.len(),
            n == cmd@.len(),
            so == all_matches(cmd@, "color"@, 0),
            sbs == char_positions(cmd@, ']', 0),
            o@.map_values(|u: usize| u as int) == so,
            bs@.map_values(|u: usize| u as int) == sbs,
            forall|k: int| 0 <= k < so.len() ==> 0 <= #[trigger] so[k] && so[k] + 5 <= n,
            forall|k: int| 0 <= k < sbs.len() ==> 0 <= #[trigger] sbs[k] < n,
            spec_colors_from(cmd@, 0, None, None) == spec_colors_from(cmd@, t as int, fg, bg),
        decreases o.len() - t,
    {
        assert(o@[t as int] as int == so[t as int]);
        if t >= bs.len() {
            assert(spec_colors_from(cmd@, t as int, fg, bg) == ColorsOutcome::MarkupErr);
            return Err(TranslateError::MarkupSyntax(cmd.to_owned()));
        }
        assert(bs@[t as int] as int == sbs[t as int]);
        let ot = o[t];
        let bt = bs[t];
        if bt < 6 || ot > bt - 6 {
            assert(so[t as int] + 6 > sbs[t as int]);
            assert(spec_colors_from(cmd@, t as int, fg, bg) == ColorsOutcome::MarkupErr);
            return Err(TranslateError::MarkupSyntax(cmd.to_owned()));
        }
        assert(so[t as int] + 6 <= sbs[t as int]);
        let raw = cmd.substring_char(ot + 6, bt);
        match color_directive(raw) {
            Ok(c) => {
                if c.0 {
                    fg = Some(c.1);
                } else {
                    bg = Some(c.1);
                }
            },
            Err(tok) => {
                assert(spec_colors_from(cmd@, t as int, fg, bg) == ColorsOutcome::ColorErr(tok@));
                return Err(TranslateError::ColorParse(tok));
            },
        }
        t += 1;
    }
    assert(spec_colors_from(cmd@, t as int, fg, bg) == ColorsOutcome::Done(fg, bg));
    Ok(StyleDirective { foreground: fg, background: bg, ..base })
}

/// Compiles one piece that followed a marker.
fn run_of_piece(p: &str) -> (r: Result<StyledRun, TranslateError>)
    ensures
        match r {
            Ok(run) => spec_piece_run(p@) == RunOutcome::Run(run@),
            Err(TranslateError::MarkupSyntax(c)) => spec_piece_run(p@) == RunOutcome::MarkupErr(
                c@,
            ),
            Err(TranslateError::ColorParse(tok)) => spec_piece_run(p@) == RunOutcome::ColorErr(
                tok@,
            ),
            Err(_) => false,
        },
{
    let n = p.unicode_len();
    let j = upto_char_exec(p, 0, ')');
    if j >= n {
        return Err(TranslateError::MarkupSyntax(p.to_owned()));
    }
    let cmd = p.substring_char(0, j);
    let text = p.substring_char(j + 1, n);
    match command_style(cmd) {
        Ok(st) => Ok(StyledRun { text: text.to_owned(), style: st }),
        Err(e) => Err(e),
    }
}

/// Compiles a whole string into its sequence of styled runs.
pub fn compile_markup(input: &str) -> (r: Result<Vec<StyledRun>, TranslateError>)
    ensures
        match r {
            Ok(runs) => spec_compile(input@) == CompileOutcome::Runs(
                runs@.map_values(|x: StyledRun| x@),
            ),
            Err(TranslateError::MarkupSyntax(c)) => spec_compile(input@)
                == CompileOutcome::MarkupErr(c@),
            Err(TranslateError::ColorParse(tok)) => spec_compile(input@)
                == CompileOutcome::ColorErr(tok@),
            Err(_) => false,
        },
{
    proof {
        reveal_strlit("(ansi ");
        crate::strutil::lemma_split_sub_nonempty(input@, marker());
    }
    let pieces = split_sub_exec(input, "(ansi ");
    let ghost ps = split_sub(input@, marker());
    assert(pieces@.map_values(|t: String| t@) == ps);
    assert(pieces@.len() == ps.len()) by {
        assert(pieces@.map_values(|t: String| t@).len() == ps.len());
    }
    let mut runs: Vec<StyledRun> = Vec::new();
    assert(pieces@[0]@ == ps[0]) by {
        assert(pieces@.map_values(|t: String| t@)[0] == ps[0]);
    }
    runs.push(StyledRun { text: pieces[0].clone(), style: StyleDirective::plain() });
    let mut k: usize = 1;
    assert(runs@.map_values(|x: StyledRun| x@) =~= seq![
        SpecRun { text: ps[0], style: StyleDirective::spec_plain() },
    ]);
    while k < pieces.len()
        invariant
            1 <= k <= pieces.len(),
            ps == split_sub(input@, marker()),
            pieces@.map_values(|t: String| t@) == ps,
            pieces@.len() == ps.len(),
            spec_compile(input@) == prepend_runs(
                runs@.map_values(|x: StyledRun| x@),
                spec_compile_from(ps, k as int),
            ),
        decreases pieces.len() - k,
    {
        assert(pieces@[k as int]@ == ps[k as int]) by {
            assert(pieces@.map_values(|t: String| t@)[k as int] == ps[k as int]);
        }
        let ghost old_runs = runs@;
        match run_of_piece(pieces[k].as_str()) {
            Ok(run) => {
                runs.push(run);
                proof {
                    let rv = runs@.map_values(|x: StyledRun| x@);
                    let ov = old_runs.map_values(|x: StyledRun| x@);
                    assert(rv =~= ov + seq![runs@[runs@.len() - 1]@]);
                    match spec_compile_from(ps, k + 1) {
                        CompileOutcome::Runs(rest) => {
                            assert(ov + (seq![runs@[runs@.len() - 1]@] + rest) =~= rv + rest);
                        },
                        _ => {},
                    }
                }
            },
            Err(e) => {
                return Err(e);
            },
        }
        k += 1;
    }
    assert(spec_compile_from(ps, k as int) == CompileOutcome::Runs(Seq::<SpecRun>::empty()));
    assert(runs@.map_values(|x: StyledRun| x@) + Seq::<SpecRun>::empty() =~= runs@.map_values(
        |x: StyledRun| x@,
    ));
    Ok(runs)
}

} // verus!
