use vstd::prelude::*;

verus! {

/// The failures a message resolution can end with.  Every variant carries
/// the piece of input that triggered it: the locale string, the key
/// segment, or the markup fragment, so a misconfigured translation
/// directory can be diagnosed.
#[derive(Debug)]
pub enum TranslateError {
    /// The locale string did not match the locale grammar.
    LocaleParse(String),
    /// No translation file matched the locale in the directory listing.
    FileResolution(String),
    /// The translation file was not a valid document with the required fields.
    DocumentParse(String),
    /// A key segment was missing and the document offered no fallback locale.
    KeyNotFound(String),
    /// A fallback locale string repeated an already-visited locale.
    FallbackCycle(String),
    /// A markup command was unterminated or had unmatched color brackets.
    MarkupSyntax(String),
    /// A color argument was neither a known name nor a number in range.
    ColorParse(String),
    /// A supplied argument value had no string form.  Raised at the host
    /// boundary, where argument values are converted to strings.
    ArgumentType(String),
}

/// What `TranslateError::label` returns, at the level of character sequences.
pub open spec fn spec_label(e: TranslateError) -> Seq<char> {
    match e {
        TranslateError::LocaleParse(s) => "locale string did not parse: "@ + s@,
        TranslateError::FileResolution(s) => "no translation file found for locale: "@ + s@,
        TranslateError::DocumentParse(s) => "translation document is malformed for locale: "@ + s@,
        TranslateError::KeyNotFound(s) => "message key segment not found: "@ + s@,
        TranslateError::FallbackCycle(s) => "fallback locale repeats an earlier one: "@ + s@,
        TranslateError::MarkupSyntax(s) => "malformed markup command: "@ + s@,
        TranslateError::ColorParse(s) => "invalid color argument: "@ + s@,
        TranslateError::ArgumentType(s) => "argument value has no string form: "@ + s@,
    }
}

impl TranslateError {
    /// A human-readable description of the failure, with its context.
    pub fn label(&self) -> (r: String)
        ensures
            r@ == spec_label(*self),
    {
        match self {
            TranslateError::LocaleParse(s) => "locale string did not parse: ".to_owned().concat(
                s.as_str(),
            ),
            TranslateError::FileResolution(s) => "no translation file found for locale: "
                .to_owned()
                .concat(s.as_str()),
            TranslateError::DocumentParse(s) => "translation document is malformed for locale: "
                .to_owned()
                .concat(s.as_str()),
            TranslateError::KeyNotFound(s) => "message key segment not found: ".to_owned().concat(
                s.as_str(),
            ),
            TranslateError::FallbackCycle(s) => "fallback locale repeats an earlier one: "
                .to_owned()
                .concat(s.as_str()),
            TranslateError::MarkupSyntax(s) => "malformed markup command: ".to_owned().concat(
                s.as_str(),
            ),
            TranslateError::ColorParse(s) => "invalid color argument: ".to_owned().concat(
                s.as_str(),
            ),
            TranslateError::ArgumentType(s) => "argument value has no string form: "
                .to_owned()
                .concat(s.as_str()),
        }
    }
}

} // verus!
