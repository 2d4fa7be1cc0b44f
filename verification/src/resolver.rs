//! The message-resolution state machine.
//!
//! One resolution holds a working locale string and the set of locale
//! strings already tried.  Each round, the caller lists the translation
//! directory and asks [`Resolution::pick_file`] for the best file, reads
//! that file, and hands its text to [`Resolution::absorb_document`]: the
//! document is parsed, the key path walked, and on a missing segment the
//! resolution moves to the document's fallback locale — unless the
//! document offers none (the key is not found) or the fallback repeats an
//! already-visited locale (a fallback cycle).

use crate::document::{
    spec_document_ok, spec_fallback, spec_messages, toml_tree_of, walk_from, LanguageToml,
    WalkOutcome, WalkResult, resolve_path,
};
use crate::errors::TranslateError;
use crate::message_key::MessageKey;
use crate::posix_language::{spec_best_file, spec_parse_locale, PosixLanguage};
use crate::strutil::str_eq;
use vstd::prelude::*;

verus! {

/// The state of one message resolution: the working locale string and
/// every locale string attempted so far (the working one included).
pub struct Resolution {
    locale: String,
    visited: Vec<String>,
}

/// The mathematical value of a resolution state.
pub ghost struct ResolutionView {
    pub locale: Seq<char>,
    pub visited: Seq<Seq<char>>,
}

impl View for Resolution {
    type V = ResolutionView;

    closed spec fn view(&self) -> ResolutionView {
        ResolutionView {
            locale: self.locale@,
            visited: self.visited@.map_values(|s: String| s@),
        }
    }
}

/// Some visited locale string equals `x`.
pub open spec fn visited_has(vs: Seq<Seq<char>>, x: Seq<char>) -> bool {
    exists|k: int| 0 <= k < vs.len() && vs[k] == x
}

/// What one resolution round decided.
pub enum StepOutcome {
    /// The key resolved: the raw template text.
    Found(String),
    /// The key was missing; the resolution moved to the document's
    /// fallback locale and the round should be repeated.
    Retry,
    /// The resolution failed for good.
    Failed(TranslateError),
}

impl Resolution {
    /// Starts a resolution at the given locale string.
    pub fn new(locale: String) -> (r: Resolution)
        ensures
            r@.locale == locale@,
            r@.visited =~= seq![locale@],
    {
        let mut visited: Vec<String> = Vec::new();
        visited.push(locale.clone());
        let r = Resolution { locale, visited };
        assert(r@.visited =~= seq![r@.locale]);
        r
    }

    /// The working locale string.
    pub fn locale(&self) -> (r: &String)
        ensures
            r@ == self@.locale,
    {
        &self.locale
    }

    /// Picks the best translation file for the working locale among the
    /// given directory entries.
    pub fn pick_file(&self, entries: &Vec<String>) -> (r: Result<String, TranslateError>)
        ensures
            ({
                let es = entries@.map_values(|e: String| e@);
                match spec_best_file(spec_parse_locale(self@.locale), es) {
                    Some(n) => r matches Ok(name) && name@ == n,
                    None => r matches Err(TranslateError::FileResolution(l)) && l@ == self@.locale,
                }
            }),
    {
        let tag = match PosixLanguage::new(self.locale.clone()) {
            Some(t) => t,
            None => {
                return Err(TranslateError::LocaleParse(self.locale.clone()));
            },
        };
        match tag.get_best_file_path(entries) {
            Some(name) => Ok(name),
            None => Err(TranslateError::FileResolution(self.locale.clone())),
        }
    }

    /// Parses a translation document and walks the message key through
    /// it; on a missing segment, moves to the document's fallback locale
    /// when there is one that was not already visited.
    pub fn absorb_document(&mut self, text: &str, key: &MessageKey) -> (r: StepOutcome)
        ensures
            ({
                let unchanged = final(self)@.locale == old(self)@.locale && final(self)@.visited
                    =~= old(self)@.visited;
                match toml_tree_of(text@) {
                    None => r matches StepOutcome::Failed(TranslateError::DocumentParse(l)) && l@
                        == old(self)@.locale && unchanged,
                    Some(tree) => {
                        if !spec_document_ok(tree) {
                            r matches StepOutcome::Failed(TranslateError::DocumentParse(l)) && l@
                                == old(self)@.locale && unchanged
                        } else {
                            match walk_from(spec_messages(tree)->0, key@, 0) {
                                WalkOutcome::Found(t) => r matches StepOutcome::Found(s) && s@ == t
                                    && unchanged,
                                WalkOutcome::Missing(ix) => {
                                    let fb = spec_fallback(tree);
                                    if fb.len() == 0 {
                                        r matches StepOutcome::Failed(TranslateError::KeyNotFound(
                                            seg,
                                        )) && seg@ == key@[ix] && unchanged
                                    } else if visited_has(old(self)@.visited, fb) {
                                        r matches StepOutcome::Failed(
                                            TranslateError::FallbackCycle(l),
                                        ) && l@ == fb && unchanged
                                    } else {
                                        r matches StepOutcome::Retry && final(self)@.locale == fb
                                            && final(self)@.visited =~= old(self)@.visited.push(fb)
                                    }
                                },
                            }
                        }
                    },
                }
            }),
    {
        let doc = match LanguageToml::parse(text) {
            Some(d) => d,
            None => {
                return StepOutcome::Failed(TranslateError::DocumentParse(self.locale.clone()));
            },
        };
        let path = key.get_path();
        match resolve_path(doc.get_messages(), path) {
            WalkResult::Found(s) => StepOutcome::Found(s),
            WalkResult::MissingAt(ix) => {
                let fb = doc.get_fallback();
                if fb.as_str().is_empty() {
                    StepOutcome::Failed(TranslateError::KeyNotFound(path[ix].clone()))
                } else {
                    let mut i: usize = 0;
                    let mut seen = false;
                    while i < self.visited.len()
                        invariant
                            i <= self.visited.len(),
                            seen ==> visited_has(
                                self.visited@.map_values(|s: String| s@),
                                fb@,
                            ),
                            !seen ==> forall|k: int|
                                0 <= k < i ==> (#[trigger] self.visited@[k])@ != fb@,
                        decreases self.visited.len() - i,
                    {
                        assert(self.visited@.map_values(|s: String| s@)[i as int]
                            == self.visited@[i as int]@);
                        if str_eq(self.visited[i].as_str(), fb.as_str()) {
                            seen = true;
                        }
                        i += 1;
                    }
                    if seen {
                        StepOutcome::Failed(TranslateError::FallbackCycle(fb))
                    } else {
                        assert(!visited_has(self.visited@.map_values(|s: String| s@), fb@)) by {
                            let m = self.visited@.map_values(|s: String| s@);
                            assert forall|k: int| 0 <= k < m.len() implies m[k] != fb@ by {
                                assert(m[k] == self.visited@[k]@);
                            }
                        }
                        self.visited.push(fb.clone());
                        self.locale = fb;
                        assert(self@.visited =~= old(self)@.visited.push(self@.locale));
                        StepOutcome::Retry
                    }
                }
            },
        }
    }
}

} // verus!
