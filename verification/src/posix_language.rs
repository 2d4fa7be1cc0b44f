//! Parsing of POSIX-style locale strings and ranking of candidate
//! translation file names.
//!
//! The locale grammar is `language[_territory][.encoding][@modifier]`:
//! `language` is a possibly-empty run of ASCII letters, `territory` is `_`
//! followed by exactly two characters, `encoding` is `.` followed by any
//! run of characters up to the modifier, and `modifier` is `@` followed by
//! a run of ASCII alphanumerics.  Every component after the language is
//! optional; characters after the matched components are ignored.  Absent
//! components default to `xx` (territory) and `blank` (encoding,
//! modifier); all four components are ASCII-lowercased.

use crate::strutil::{
    alnum_at, ascii_lower, char_at_is, is_ascii_alnum, is_ascii_letter, is_prefix, lemma_run_end,
    letter_at, lower_seq, run_end, str_eq, str_starts_with, upto_char,
};
use vstd::prelude::*;

verus! {

/// A structured POSIX-style locale tag.
pub struct PosixLanguage {
    language: String,
    territory: String,
    encoding: String,
    modifier: String,
}

/// The mathematical value of a locale tag: its four components as
/// character sequences.
pub ghost struct LocaleView {
    pub language: Seq<char>,
    pub territory: Seq<char>,
    pub encoding: Seq<char>,
    pub modifier: Seq<char>,
}

impl View for PosixLanguage {
    type V = LocaleView;

    closed spec fn view(&self) -> LocaleView {
        LocaleView {
            language: self.language@,
            territory: self.territory@,
            encoding: self.encoding@,
            modifier: self.modifier@,
        }
    }
}

// ---------------------------------------------------------------------------
// Spec: the locale grammar
// ---------------------------------------------------------------------------

/// End of the leading letter run: the language component is `s[0 .. lang_end]`.
pub open spec fn spec_lang_end(s: Seq<char>) -> int {
    run_end(s, 0, |c: char| is_ascii_letter(c))
}

/// A `_` and two further characters follow the language.
pub open spec fn spec_has_territory(s: Seq<char>) -> bool {
    spec_lang_end(s) + 3 <= s.len() && s[spec_lang_end(s)] == '_'
}

pub open spec fn spec_terr_end(s: Seq<char>) -> int {
    if spec_has_territory(s) {
        spec_lang_end(s) + 3
    } else {
        spec_lang_end(s)
    }
}

/// A `.` follows the territory (or the language).
pub open spec fn spec_has_encoding(s: Seq<char>) -> bool {
    spec_terr_end(s) < s.len() && s[spec_terr_end(s)] == '.'
}

/// The encoding runs from after the `.` to the first `@`, or to the end.
pub open spec fn spec_enc_end(s: Seq<char>) -> int {
    if spec_has_encoding(s) {
        upto_char(s, spec_terr_end(s) + 1, '@')
    } else {
        spec_terr_end(s)
    }
}

/// An `@` follows the encoding (or the territory, or the language).
pub open spec fn spec_has_modifier(s: Seq<char>) -> bool {
    spec_enc_end(s) < s.len() && s[spec_enc_end(s)] == '@'
}

/// The modifier is the alphanumeric run after the `@`.
pub open spec fn spec_mod_end(s: Seq<char>) -> int {
    if spec_has_modifier(s) {
        run_end(s, spec_enc_end(s) + 1, |c: char| is_ascii_alnum(c))
    } else {
        spec_enc_end(s)
    }
}

/// The language component, lowercased.
pub open spec fn spec_language(s: Seq<char>) -> Seq<char> {
    lower_seq(s.subrange(0, spec_lang_end(s)))
}

/// The territory component, lowercased, or the default `xx`.
pub open spec fn spec_territory(s: Seq<char>) -> Seq<char> {
    if spec_has_territory(s) {
        lower_seq(s.subrange(spec_lang_end(s) + 1, spec_lang_end(s) + 3))
    } else {
        "xx"@
    }
}

/// The encoding component, lowercased, or the default `blank`.
pub open spec fn spec_encoding(s: Seq<char>) -> Seq<char> {
    if spec_has_encoding(s) {
        lower_seq(s.subrange(spec_terr_end(s) + 1, spec_enc_end(s)))
    } else {
        "blank"@
    }
}

/// The modifier component, lowercased, or the default `blank`.
pub open spec fn spec_modifier(s: Seq<char>) -> Seq<char> {
    if spec_has_modifier(s) {
        lower_seq(s.subrange(spec_enc_end(s) + 1, spec_mod_end(s)))
    } else {
        "blank"@
    }
}

/// The locale tag a string parses to.
pub open spec fn spec_parse_locale(s: Seq<char>) -> LocaleView {
    LocaleView {
        language: spec_language(s),
        territory: spec_territory(s),
        encoding: spec_encoding(s),
        modifier: spec_modifier(s),
    }
}

// ---------------------------------------------------------------------------
// Spec: candidate file names
// ---------------------------------------------------------------------------

/// `_territory`, or nothing when the territory is the default placeholder.
pub open spec fn spec_terr_part(v: LocaleView) -> Seq<char> {
    if v.territory == "xx"@ {
        Seq::<char>::empty()
    } else {
        "_"@ + v.territory
    }
}

/// `@modifier`, or nothing when the modifier is the default placeholder.
pub open spec fn spec_mod_part(v: LocaleView) -> Seq<char> {
    if v.modifier == "blank"@ {
        Seq::<char>::empty()
    } else {
        "@"@ + v.modifier
    }
}

/// The four candidate file names, in strict preference order.
pub open spec fn candidate_names(v: LocaleView) -> Seq<Seq<char>> {
    seq![
        v.language + spec_terr_part(v) + spec_mod_part(v) + ".toml"@,
        v.language + spec_terr_part(v) + ".toml"@,
        v.language + spec_mod_part(v) + ".toml"@,
        v.language + ".toml"@,
    ]
}

/// Some entry equals `x`.
pub open spec fn seq_has(entries: Seq<Seq<char>>, x: Seq<char>) -> bool {
    exists|k: int| 0 <= k < entries.len() && entries[k] == x
}

/// The first candidate that appears among the entries.
pub open spec fn first_exact(cands: Seq<Seq<char>>, entries: Seq<Seq<char>>) -> Option<Seq<char>>
    decreases cands.len(),
{
    if cands.len() == 0 {
        None
    } else if seq_has(entries, cands[0]) {
        Some(cands[0])
    } else {
        first_exact(cands.drop_first(), entries)
    }
}

/// The first entry that starts with `pre`.
pub open spec fn first_prefixed(entries: Seq<Seq<char>>, pre: Seq<char>) -> Option<Seq<char>>
    decreases entries.len(),
{
    if entries.len() == 0 {
        None
    } else if is_prefix(pre, entries[0]) {
        Some(entries[0])
    } else {
        first_prefixed(entries.drop_first(), pre)
    }
}

/// The best matching file name among the directory entries: the first
/// exact candidate match in preference order, else the first entry with
/// the tag's language as a prefix, else the first entry starting `en`.
pub open spec fn spec_best_file(v: LocaleView, entries: Seq<Seq<char>>) -> Option<Seq<char>> {
    match first_exact(candidate_names(v), entries) {
        Some(n) => Some(n),
        None => match first_prefixed(entries, v.language) {
            Some(n) => Some(n),
            None => first_prefixed(entries, "en"@),
        },
    }
}

// ---------------------------------------------------------------------------
// Exec
// ---------------------------------------------------------------------------

impl PosixLanguage {
    /// Parses a locale string.  The grammar accepts every string (all of
    /// its components may be empty or absent), so this always returns a
    /// tag, with the component values the grammar specifies.
    pub fn new(string: String) -> (r: Option<PosixLanguage>)
        ensures
            r matches Some(p) && p@ == spec_parse_locale(string@),
    {
        let s = string.as_str();
        let n = s.unicode_len();
        proof {
            lemma_run_end(s@, 0, |c: char| is_ascii_letter(c));
        }
        // language: leading letter run
        let mut l: usize = 0;
        while l < n && letter_at(s, l)
            invariant
                0 <= l <= n,
                n == s@.len(),
                run_end(s@, 0, |c: char| is_ascii_letter(c)) == run_end(
                    s@,
                    l as int,
                    |c: char| is_ascii_letter(c),
                ),
            decreases n - l,
        {
            l += 1;
        }
        assert(spec_lang_end(s@) == l);
        let language = ascii_lower(s.substring_char(0, l));

        // territory: `_` and exactly two characters
        let has_terr = n >= 3 && l <= n - 3 && char_at_is(s, l, '_');
        assert(has_terr == spec_has_territory(s@));
        let t_end: usize = if has_terr {
            l + 3
        } else {
            l
        };
        let territory: String = if has_terr {
            ascii_lower(s.substring_char(l + 1, l + 3))
        } else {
            "xx".to_owned()
        };

        // encoding: `.` up to the first `@`
        let has_enc = t_end < n && s.get_char(t_end) == '.';
        let mut e_end: usize = t_end;
        let mut encoding: String = "blank".to_owned();
        if has_enc {
            proof {
                lemma_run_end(s@, t_end + 1, |x: char| x != '@');
            }
            let mut j: usize = t_end + 1;
            while j < n && s.get_char(j) != '@'
                invariant
                    t_end + 1 <= j <= n,
                    n == s@.len(),
                    upto_char(s@, t_end + 1, '@') == upto_char(s@, j as int, '@'),
                decreases n - j,
            {
                j += 1;
            }
            assert(upto_char(s@, t_end + 1, '@') == j);
            e_end = j;
            encoding = ascii_lower(s.substring_char(t_end + 1, j));
        }
        assert(e_end == spec_enc_end(s@));

        // modifier: `@` and an alphanumeric run
        let has_mod = e_end < n && s.get_char(e_end) == '@';
        let mut modifier: String = "blank".to_owned();
        if has_mod {
            proof {
                lemma_run_end(s@, e_end + 1, |c: char| is_ascii_alnum(c));
            }
            let mut j: usize = e_end + 1;
            while j < n && alnum_at(s, j)
                invariant
                    e_end + 1 <= j <= n,
                    n == s@.len(),
                    run_end(s@, e_end + 1 as int, |c: char| is_ascii_alnum(c)) == run_end(
                        s@,
                        j as int,
                        |c: char| is_ascii_alnum(c),
                    ),
                decreases n - j,
            {
                j += 1;
            }
            assert(spec_mod_end(s@) == j);
            modifier = ascii_lower(s.substring_char(e_end + 1, j));
        }

        Some(
            PosixLanguage {
                language,
                territory,
                encoding,
                modifier,
            },
        )
    }

    pub fn get_language(&self) -> (r: &String)
        ensures
            r@ == self@.language,
    {
        &self.language
    }

    pub fn get_territory(&self) -> (r: &String)
        ensures
            r@ == self@.territory,
    {
        &self.territory
    }

    pub fn get_encoding(&self) -> (r: &String)
        ensures
            r@ == self@.encoding,
    {
        &self.encoding
    }

    pub fn get_modifier(&self) -> (r: &String)
        ensures
            r@ == self@.modifier,
    {
        &self.modifier
    }

    /// The four candidate translation file names for this tag, most
    /// specific first: `language[_territory][@modifier].toml` with the
    /// territory and modifier segments omitted when they hold their
    /// default placeholders.
    pub fn four_best_file_names(&self) -> (r: Vec<String>)
        ensures
            r@.len() == 4,
            forall|i: int| 0 <= i < 4 ==> r@[i]@ == candidate_names(self@)[i],
    {
        let mut terr_part = String::new();
        if !str_eq(self.territory.as_str(), "xx") {
            terr_part = "_".to_owned();
            terr_part.append(self.territory.as_str());
        }
        let mut mod_part = String::new();
        if !str_eq(self.modifier.as_str(), "blank") {
            mod_part = "@".to_owned();
            mod_part.append(self.modifier.as_str());
        }
        assert(terr_part@ == spec_terr_part(self@));
        assert(mod_part@ == spec_mod_part(self@));

        let mut n0 = self.language.clone();
        n0.append(terr_part.as_str());
        n0.append(mod_part.as_str());
        n0.append(".toml");
        let mut n1 = self.language.clone();
        n1.append(terr_part.as_str());
        n1.append(".toml");
        let mut n2 = self.language.clone();
        n2.append(mod_part.as_str());
        n2.append(".toml");
        let mut n3 = self.language.clone();
        n3.append(".toml");

        let mut out: Vec<String> = Vec::new();
        out.push(n0);
        out.push(n1);
        out.push(n2);
        out.push(n3);
        out
    }

    /// The tag in a readable form:
    /// `lang: <language>, terr: <territory>, encd: <encoding>, mod: <modifier>`.
    pub fn describe(&self) -> (r: String)
        ensures
            r@ == "lang: "@ + self@.language + ", terr: "@ + self@.territory + ", encd: "@
                + self@.encoding + ", mod: "@ + self@.modifier,
    {
        let mut out = "lang: ".to_owned();
        out.append(self.language.as_str());
        out.append(", terr: ");
        out.append(self.territory.as_str());
        out.append(", encd: ");
        out.append(self.encoding.as_str());
        out.append(", mod: ");
        out.append(self.modifier.as_str());
        out
    }

    /// The best matching file name among the given directory entries, or
    /// `None` when no candidate matches exactly, no entry starts with the
    /// tag's language, and no entry starts with `en`.
    pub fn get_best_file_path(&self, entries: &Vec<String>) -> (r: Option<String>)
        ensures
            ({
                let es = entries@.map_values(|e: String| e@);
                match r {
                    Some(name) => spec_best_file(self@, es) == Some(name@),
                    None => spec_best_file(self@, es) is None,
                }
            }),
    {
        let ghost es = entries@.map_values(|e: String| e@);
        let cands = self.four_best_file_names();
        assert(candidate_names(self@).skip(0) =~= candidate_names(self@));
        let mut i: usize = 0;
        while i < cands.len()
            invariant
                i <= cands.len(),
                cands@.len() == 4,
                es == entries@.map_values(|e: String| e@),
                forall|k: int| 0 <= k < 4 ==> cands@[k]@ == candidate_names(self@)[k],
                first_exact(candidate_names(self@), es) == first_exact(
                    candidate_names(self@).skip(i as int),
                    es,
                ),
            decreases cands.len() - i,
        {
            let cand = &cands[i];
            let mut j: usize = 0;
            let mut found = false;
            while j < entries.len()
                invariant
                    j <= entries.len(),
                    es == entries@.map_values(|e: String| e@),
                    i < cands@.len(),
                    cand@ == cands@[i as int]@,
                    found ==> seq_has(es, cands@[i as int]@),
                    !found ==> forall|k: int| 0 <= k < j ==> es[k] != cands@[i as int]@,
                decreases entries.len() - j,
            {
                assert(es[j as int] == entries@[j as int]@);
                if str_eq(entries[j].as_str(), cand.as_str()) {
                    assert(es[j as int] == cands@[i as int]@);
                    assert(seq_has(es, cands@[i as int]@));
                    found = true;
                }
                j += 1;
            }
            if found {
                assert(candidate_names(self@).skip(i as int)[0] == candidate_names(self@)[i as int]);
                assert(first_exact(candidate_names(self@).skip(i as int), es) == Some(
                    candidate_names(self@)[i as int],
                ));
                return Some(cands[i].clone());
            }
            assert(candidate_names(self@).skip(i as int)[0] == candidate_names(self@)[i as int]);
            assert(!seq_has(es, candidate_names(self@)[i as int]));
            assert(candidate_names(self@).skip(i as int).drop_first() =~= candidate_names(
                self@,
            ).skip(i + 1));
            i += 1;
        }
        assert(candidate_names(self@).skip(4) =~= Seq::<Seq<char>>::empty());
        assert(first_exact(candidate_names(self@), es) is None);

        // fall back to the first entry with the language as a prefix
        assert(es.skip(0) =~= es);
        let mut j: usize = 0;
        while j < entries.len()
            invariant
                j <= entries.len(),
                es == entries@.map_values(|e: String| e@),
                first_prefixed(es, self@.language) == first_prefixed(
                    es.skip(j as int),
                    self@.language,
                ),
                first_exact(candidate_names(self@), es) is None,
            decreases entries.len() - j,
        {
            assert(es[j as int] == entries@[j as int]@);
            if str_starts_with(entries[j].as_str(), self.language.as_str()) {
                assert(es.skip(j as int)[0] == es[j as int]);
                return Some(entries[j].clone());
            }
            assert(es.skip(j as int).drop_first() =~= es.skip(j + 1));
            j += 1;
        }
        assert(es.skip(entries@.len() as int) =~= Seq::<Seq<char>>::empty());

        // fall back to the first entry starting with `en`
        assert(es.skip(0) =~= es);
        let mut j2: usize = 0;
        while j2 < entries.len()
            invariant
                j2 <= entries.len(),
                es == entries@.map_values(|e: String| e@),
                first_prefixed(es, "en"@) == first_prefixed(es.skip(j2 as int), "en"@),
                first_exact(candidate_names(self@), es) is None,
                first_prefixed(es, self@.language) is None,
            decreases entries.len() - j2,
        {
            assert(es[j2 as int] == entries@[j2 as int]@);
            if str_starts_with(entries[j2].as_str(), "en") {
                assert(es.skip(j2 as int)[0] == es[j2 as int]);
                return Some(entries[j2].clone());
            }
            assert(es.skip(j2 as int).drop_first() =~= es.skip(j2 + 1));
            j2 += 1;
        }
        assert(es.skip(entries@.len() as int) =~= Seq::<Seq<char>>::empty());
        None
    }
}

} // verus!
