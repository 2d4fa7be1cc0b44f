//! Argument substitution in resolved templates, and the full template
//! rendering pipeline (substitution, then markup compilation).

use crate::ansi::{ansify_string, rendered};
use crate::errors::TranslateError;
use crate::markup::{spec_compile, CompileOutcome};
use crate::strutil::{
    contains_sub, lemma_first_match_bounds, lemma_replace_absent, lemma_replace_all_preserves,
    match_at, replace_all,
};
use vstd::prelude::*;

verus! {

/// The placeholder a named argument replaces: `($name)`.
pub open spec fn placeholder(name: Seq<char>) -> Seq<char> {
    "($"@ + name + ")"@
}

/// Every supplied argument's replacement applied exhaustively, in the
/// order the arguments are given.  Placeholders of unsupplied names stay
/// verbatim.
pub open spec fn spec_substitute(t: Seq<char>, args: Seq<(Seq<char>, Seq<char>)>) -> Seq<char>
    decreases args.len(),
{
    if args.len() == 0 {
        t
    } else {
        spec_substitute(replace_all(t, placeholder(args[0].0), args[0].1), args.drop_first())
    }
}

/// Replaces every occurrence of `pat` in `s` with `val`, left to right,
/// without rescanning the replacement text.
pub fn replace_all_exec(s: &str, pat: &str, val: &str) -> (r: String)
    requires
        pat@.len() > 0,
    ensures
        r@ == replace_all(s@, pat@, val@),
{
    let plen = pat.unicode_len();
    let mut out = String::new();
    let mut rest: &str = s;
    assert(Seq::<char>::empty() + replace_all(rest@, pat@, val@) =~= replace_all(
        s@,
        pat@,
        val@,
    ));
    loop
        invariant_except_break
            plen == pat@.len(),
            plen > 0,
            replace_all(s@, pat@, val@) == out@ + replace_all(rest@, pat@, val@),
        ensures
            out@ == replace_all(s@, pat@, val@),
        decreases rest@.len(),
    {
        let m = rest.unicode_len();
        match crate::strutil::find_sub_from(rest, pat, 0) {
            None => {
                out.append(rest);
                break ;
            },
            Some(i) => {
                proof {
                    lemma_first_match_bounds(rest@, pat@, 0);
                }
                let ghost old_rest = rest@;
                let pre = rest.substring_char(0, i);
                out.append(pre);
                out.append(val);
                rest = rest.substring_char(i + plen, m);
                assert(old_rest.subrange(0, i as int) + val@ + replace_all(rest@, pat@, val@)
                    =~= old_rest.subrange(0, i as int) + (val@ + replace_all(rest@, pat@, val@)));
            },
        }
    }
    out
}

/// The view of an argument list: each name and value as character
/// sequences.
pub open spec fn args_view(args: Seq<(String, String)>) -> Seq<(Seq<char>, Seq<char>)> {
    args.map_values(|p: (String, String)| (p.0@, p.1@))
}

/// Replaces every `($name)` placeholder of every supplied argument with
/// the argument's value, one argument after the other.
pub fn substitute(template: &String, args: &Vec<(String, String)>) -> (r: String)
    ensures
        r@ == spec_substitute(template@, args_view(args@)),
{
    proof {
        reveal_strlit("($");
        reveal_strlit(")");
    }
    let ghost av = args_view(args@);
    let mut cur: String = template.clone();
    let mut i: usize = 0;
    assert(av.skip(0) =~= av);
    while i < args.len()
        invariant
            0 <= i <= args.len(),
            av == args_view(args@),
            spec_substitute(template@, av) == spec_substitute(cur@, av.skip(i as int)),
        decreases args.len() - i,
    {
        assert(av[i as int] == (args@[i as int].0@, args@[i as int].1@));
        let mut pat = "($".to_owned();
        pat.append(args[i].0.as_str());
        pat.append(")");
        assert(pat@ == placeholder(av[i as int].0));
        proof {
            reveal_strlit("($");
            assert(pat@.len() > 0);
        }
        let next = replace_all_exec(cur.as_str(), pat.as_str(), args[i].1.as_str());
        proof {
            assert(av.skip(i as int)[0] == av[i as int]);
            assert(av.skip(i as int).drop_first() =~= av.skip(i as int + 1));
        }
        cur = next;
        i += 1;
    }
    assert(av.skip(args@.len() as int) =~= Seq::<(Seq<char>, Seq<char>)>::empty());
    cur
}

/// Substitutes the arguments into the template, then compiles and renders
/// its styling markup: the full rendering pipeline after a message has
/// been resolved.
pub fn render_template(template: &String, args: &Vec<(String, String)>) -> (r: Result<
    String,
    TranslateError,
>)
    ensures
        ({
            let sub = spec_substitute(template@, args_view(args@));
            match spec_compile(sub) {
                CompileOutcome::Runs(rs) => r matches Ok(s) && s@ == rendered(rs),
                CompileOutcome::MarkupErr(c) => r matches Err(TranslateError::MarkupSyntax(e))
                    && e@ == c,
                CompileOutcome::ColorErr(tok) => r matches Err(TranslateError::ColorParse(e)) && e@
                    == tok,
            }
        }),
{
    let substituted = substitute(template, args);
    ansify_string(&substituted)
}

/// Substituting with no arguments leaves the template unchanged.
pub proof fn lemma_substitute_empty(t: Seq<char>)
    ensures
        spec_substitute(t, Seq::<(Seq<char>, Seq<char>)>::empty()) == t,
{
}

/// An argument whose placeholder does not occur in the template leaves it
/// unchanged: an unreferenced argument is harmless, and a placeholder of
/// an unsupplied name stays verbatim.
pub proof fn lemma_substitute_absent(t: Seq<char>, name: Seq<char>, val: Seq<char>)
    requires
        !contains_sub(t, placeholder(name)),
    ensures
        spec_substitute(t, seq![(name, val)]) == t,
{
    reveal_strlit("($");
    assert(placeholder(name).len() > 0);
    lemma_replace_absent(t, placeholder(name), val);
    let a = seq![(name, val)];
    assert(a[0] == (name, val));
    assert(a.drop_first() =~= Seq::<(Seq<char>, Seq<char>)>::empty());
    assert(spec_substitute(t, a) == spec_substitute(
        replace_all(t, placeholder(name), val),
        a.drop_first(),
    ));
    assert(spec_substitute(t, a.drop_first()) == t);
}

/// Arguments none of whose placeholders occur in the template leave it
/// unchanged, however many there are.
pub proof fn lemma_substitute_all_absent(t: Seq<char>, args: Seq<(Seq<char>, Seq<char>)>)
    requires
        forall|k: int|
            0 <= k < args.len() ==> !contains_sub(t, placeholder((#[trigger] args[k]).0)),
    ensures
        spec_substitute(t, args) == t,
    decreases args.len(),
{
    reveal_strlit("($");
    if args.len() > 0 {
        assert(placeholder(args[0].0).len() > 0);
        assert(!contains_sub(t, placeholder(args[0].0)));
        lemma_replace_absent(t, placeholder(args[0].0), args[0].1);
        assert(forall|k: int|
            0 <= k < args.drop_first().len() ==> (#[trigger] args.drop_first()[k]) == args[k + 1]);
        lemma_substitute_all_absent(t, args.drop_first());
    }
}

/// Substitution is compositional over the argument list: the arguments of
/// `a` are each applied exhaustively before any argument of `b`.
pub proof fn lemma_substitute_split(
    t: Seq<char>,
    a: Seq<(Seq<char>, Seq<char>)>,
    b: Seq<(Seq<char>, Seq<char>)>,
)
    ensures
        spec_substitute(t, a + b) == spec_substitute(spec_substitute(t, a), b),
    decreases a.len(),
{
    if a.len() == 0 {
        assert(a + b =~= b);
    } else {
        assert((a + b)[0] == a[0]);
        assert((a + b).drop_first() =~= a.drop_first() + b);
        lemma_substitute_split(replace_all(t, placeholder(a[0].0), a[0].1), a.drop_first(), b);
    }
}

/// A name without parentheses.  Placeholders of distinct such names
/// cannot overlap one another in any string.
pub open spec fn paren_free(name: Seq<char>) -> bool {
    forall|k: int| 0 <= k < name.len() ==> #[trigger] name[k] != '(' && name[k] != ')'
}

/// Occurrences of the placeholders of two distinct paren-free names are
/// disjoint.
pub proof fn lemma_placeholders_disjoint(
    u: Seq<char>,
    n: Seq<char>,
    x: Seq<char>,
    i: int,
    j: int,
)
    requires
        paren_free(n),
        paren_free(x),
        n != x,
        match_at(u, placeholder(n), i),
        match_at(u, placeholder(x), j),
    ensures
        i + placeholder(n).len() <= j || j + placeholder(x).len() <= i,
{
    reveal_strlit("($");
    reveal_strlit(")");
    let p = placeholder(n);
    let q = placeholder(x);
    assert(p.len() == n.len() + 3);
    assert(q.len() == x.len() + 3);
    assert(p[0] == '(' && p[1] == '$' && p[p.len() - 1] == ')');
    assert(q[0] == '(' && q[1] == '$' && q[q.len() - 1] == ')');
    assert(forall|k: int| 0 <= k < n.len() ==> p[2 + k] == #[trigger] n[k]);
    assert(forall|k: int| 0 <= k < x.len() ==> q[2 + k] == #[trigger] x[k]);
    assert forall|k: int| 1 <= k < p.len() implies p[k] != '(' by {
        if 2 <= k < p.len() - 1 {
            assert(p[k] == n[k - 2]);
        }
    }
    assert forall|k: int| 1 <= k < q.len() implies q[k] != '(' by {
        if 2 <= k < q.len() - 1 {
            assert(q[k] == x[k - 2]);
        }
    }
    assert forall|k: int| 0 <= k < p.len() - 1 implies p[k] != ')' by {
        if 2 <= k {
            assert(p[k] == n[k - 2]);
        }
    }
    assert forall|k: int| 0 <= k < q.len() - 1 implies q[k] != ')' by {
        if 2 <= k {
            assert(q[k] == x[k - 2]);
        }
    }
    assert(forall|k: int| 0 <= k < p.len() ==> u[i + k] == #[trigger] p[k]) by {
        assert(forall|k: int|
            0 <= k < p.len() ==> #[trigger] p[k] == u.subrange(i, i + p.len() as int)[k]);
    }
    assert(forall|k: int| 0 <= k < q.len() ==> u[j + k] == #[trigger] q[k]) by {
        assert(forall|k: int|
            0 <= k < q.len() ==> #[trigger] q[k] == u.subrange(j, j + q.len() as int)[k]);
    }
    if !(i + p.len() <= j || j + q.len() <= i) {
        if i < j {
            // q would have to start inside p, but `(` occurs in p only at 0
            assert(u[j] == q[0]);
            assert(u[j] == p[j - i]);
            assert(false);
        } else if j < i {
            assert(u[i] == p[0]);
            assert(u[i] == q[i - j]);
            assert(false);
        } else {
            // both start at the same place: one would be a prefix of the
            // other, putting a `)` inside the longer one's name
            if p.len() < q.len() {
                assert(u[i + p.len() - 1] == p[p.len() - 1]);
                assert(u[j + p.len() - 1] == q[p.len() - 1]);
                assert(false);
            } else if q.len() < p.len() {
                assert(u[j + q.len() - 1] == q[q.len() - 1]);
                assert(u[i + q.len() - 1] == p[q.len() - 1]);
                assert(false);
            } else {
                assert(n.len() == x.len());
                assert forall|k: int| 0 <= k < n.len() implies n[k] == x[k] by {
                    assert(u[i + 2 + k] == p[2 + k]);
                    assert(u[j + 2 + k] == q[2 + k]);
                }
                assert(n =~= x);
                assert(false);
            }
        }
    }
}

/// The placeholder of a name that is not among the supplied arguments
/// still occurs after every supplied argument has been substituted
/// (stated for names without parentheses, whose placeholders cannot
/// overlap; a name such as `a($b` can lose its placeholder when `b` is
/// substituted inside it).
pub proof fn lemma_substitute_keeps_unsupplied(
    t: Seq<char>,
    args: Seq<(Seq<char>, Seq<char>)>,
    x: Seq<char>,
)
    requires
        contains_sub(t, placeholder(x)),
        paren_free(x),
        forall|k: int|
            0 <= k < args.len() ==> paren_free((#[trigger] args[k]).0) && args[k].0 != x,
    ensures
        contains_sub(spec_substitute(t, args), placeholder(x)),
    decreases args.len(),
{
    reveal_strlit("($");
    if args.len() > 0 {
        let p = placeholder(args[0].0);
        let q = placeholder(x);
        assert(p.len() > 0 && q.len() > 0);
        lemma_first_match_bounds(t, q, 0);
        let j = crate::strutil::find_sub(t, q)->0;
        assert forall|i: int| match_at(t, p, i) implies (i + p.len() <= j || j + q.len()
            <= i) by {
            lemma_placeholders_disjoint(t, args[0].0, x, i, j);
        }
        lemma_replace_all_preserves(t, p, args[0].1, q, j);
        let t1 = replace_all(t, p, args[0].1);
        assert(forall|k: int|
            0 <= k < args.drop_first().len() ==> (#[trigger] args.drop_first()[k]) == args[k + 1]);
        lemma_substitute_keeps_unsupplied(t1, args.drop_first(), x);
    }
}

} // verus!
