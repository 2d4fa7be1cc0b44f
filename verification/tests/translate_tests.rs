use nu_tongues::colors::{ansi_color_from_str, ColorValue, NamedColor};
use nu_tongues::ansi::ansify_string;
use nu_tongues::document::{LanguageToml, MessageNode, resolve_path, WalkResult};
use nu_tongues::markup::compile_markup;
use nu_tongues::message_key::MessageKey;
use nu_tongues::posix_language::PosixLanguage;
use nu_tongues::resolver::{Resolution, StepOutcome};
use nu_tongues::substitute::{render_template, substitute};
use nu_tongues::TranslateError;

#[test]
fn parses_full_locale_string() {
    let p = PosixLanguage::new("en_US.UTF-8@euro".to_string()).unwrap();
    assert_eq!(p.get_language().as_str(), "en");
    assert_eq!(p.get_territory().as_str(), "us");
    assert_eq!(p.get_encoding().as_str(), "utf-8");
    assert_eq!(p.get_modifier().as_str(), "euro");
}

#[test]
fn parses_bare_language_with_defaults() {
    let p = PosixLanguage::new("fr".to_string()).unwrap();
    assert_eq!(p.get_language().as_str(), "fr");
    assert_eq!(p.get_territory().as_str(), "xx");
    assert_eq!(p.get_encoding().as_str(), "blank");
    assert_eq!(p.get_modifier().as_str(), "blank");
}

#[test]
fn parses_modifier_without_encoding() {
    let p = PosixLanguage::new("de_DE@euro".to_string()).unwrap();
    assert_eq!(p.get_language().as_str(), "de");
    assert_eq!(p.get_territory().as_str(), "de");
    assert_eq!(p.get_encoding().as_str(), "blank");
    assert_eq!(p.get_modifier().as_str(), "euro");
}

#[test]
fn lowercases_the_language_component() {
    let p = PosixLanguage::new("FR_fr".to_string()).unwrap();
    assert_eq!(p.get_language().as_str(), "fr");
    assert_eq!(p.get_territory().as_str(), "fr");
    // an upper-case $LANG still finds the conventionally named file
    let entries = vec!["fr_fr.toml".to_string(), "fr.toml".to_string()];
    assert_eq!(p.get_best_file_path(&entries), Some("fr_fr.toml".to_string()));
    let names = p.four_best_file_names();
    assert_eq!(names[3], "fr.toml");
}

#[test]
fn territory_takes_any_two_characters() {
    let p = PosixLanguage::new("en_U.x".to_string()).unwrap();
    assert_eq!(p.get_language().as_str(), "en");
    assert_eq!(p.get_territory().as_str(), "u.");
    assert_eq!(p.get_encoding().as_str(), "blank");
    assert_eq!(p.get_modifier().as_str(), "blank");
}

#[test]
fn empty_locale_string_still_parses() {
    let p = PosixLanguage::new(String::new()).unwrap();
    assert_eq!(p.get_language().as_str(), "");
    assert_eq!(p.get_territory().as_str(), "xx");
}

#[test]
fn four_candidates_in_preference_order() {
    let p = PosixLanguage::new("fr_CA@quebec".to_string()).unwrap();
    let names = p.four_best_file_names();
    assert_eq!(
        names,
        vec![
            "fr_ca@quebec.toml".to_string(),
            "fr_ca.toml".to_string(),
            "fr@quebec.toml".to_string(),
            "fr.toml".to_string(),
        ]
    );
}

#[test]
fn default_placeholders_are_omitted_from_candidates() {
    let p = PosixLanguage::new("fr".to_string()).unwrap();
    let names = p.four_best_file_names();
    assert_eq!(names[0], "fr.toml");
    assert_eq!(names[3], "fr.toml");
}

#[test]
fn exact_candidate_beats_listing_order() {
    let p = PosixLanguage::new("fr_CA".to_string()).unwrap();
    let entries = vec!["fr.toml".to_string(), "fr_ca.toml".to_string()];
    assert_eq!(p.get_best_file_path(&entries), Some("fr_ca.toml".to_string()));
}

#[test]
fn language_prefix_fallback_selects_first_match() {
    let p = PosixLanguage::new("fr_FR".to_string()).unwrap();
    let entries = vec!["de.toml".to_string(), "fr_old.toml".to_string()];
    assert_eq!(p.get_best_file_path(&entries), Some("fr_old.toml".to_string()));
}

#[test]
fn en_prefix_is_the_last_resort() {
    let p = PosixLanguage::new("fr_FR".to_string()).unwrap();
    let entries = vec!["de.toml".to_string(), "en.toml".to_string()];
    assert_eq!(p.get_best_file_path(&entries), Some("en.toml".to_string()));
}

#[test]
fn no_entry_matches_at_all() {
    let p = PosixLanguage::new("fr_FR".to_string()).unwrap();
    let entries = vec!["de.toml".to_string()];
    assert_eq!(p.get_best_file_path(&entries), None);
}

#[test]
fn message_key_splits_on_dots() {
    let k = MessageKey::new("greeting.formal.morning".to_string());
    assert_eq!(k.get_path(), &vec![
        "greeting".to_string(),
        "formal".to_string(),
        "morning".to_string(),
    ]);
}

#[test]
fn message_key_preserves_empty_segments() {
    let k = MessageKey::new(".a..b.".to_string());
    assert_eq!(k.get_path(), &vec![
        "".to_string(),
        "a".to_string(),
        "".to_string(),
        "b".to_string(),
        "".to_string(),
    ]);
}

const EN_TOML: &str = "language = \"english\"\nterritory = \"xx\"\nmodifier = \"blank\"\n\n[messages]\ngreeting = \"hi\"\n";

#[test]
fn prefix_fallback_then_direct_resolution() {
    // A directory with only en.toml, resolving locale fr_FR: no fr*
    // candidate, the en prefix selects en.toml, and the key resolves
    // directly even though en.toml sets no fallback.
    let mut res = Resolution::new("fr_FR".to_string());
    let entries = vec!["en.toml".to_string()];
    let picked = res.pick_file(&entries).unwrap();
    assert_eq!(picked, "en.toml");
    let key = MessageKey::new("greeting".to_string());
    match res.absorb_document(EN_TOML, &key) {
        StepOutcome::Found(s) => assert_eq!(s, "hi"),
        _ => panic!("expected the key to resolve"),
    }
}

#[test]
fn missing_segment_without_fallback_is_key_not_found() {
    let mut res = Resolution::new("en".to_string());
    let key = MessageKey::new("greeting.missing".to_string());
    match res.absorb_document(EN_TOML, &key) {
        StepOutcome::Failed(TranslateError::KeyNotFound(seg)) => assert_eq!(seg, "missing"),
        _ => panic!("expected KeyNotFound"),
    }
}

#[test]
fn fallback_document_supplies_the_key() {
    let first = "language = \"english\"\nterritory = \"xx\"\nmodifier = \"blank\"\nfallback = \"de\"\n\n[messages]\ngreeting = \"hi\"\n";
    let second = "language = \"deutsch\"\nterritory = \"xx\"\nmodifier = \"blank\"\n\n[messages]\n[messages.greeting]\nmissing = \"hallo\"\n";
    let mut res = Resolution::new("en".to_string());
    let key = MessageKey::new("greeting.missing".to_string());
    match res.absorb_document(first, &key) {
        StepOutcome::Retry => {}
        _ => panic!("expected a retry with the fallback locale"),
    }
    assert_eq!(res.locale().as_str(), "de");
    match res.absorb_document(second, &key) {
        StepOutcome::Found(s) => assert_eq!(s, "hallo"),
        _ => panic!("expected the fallback document to resolve"),
    }
}

#[test]
fn fallback_cycle_is_detected() {
    let looping = "language = \"english\"\nterritory = \"xx\"\nmodifier = \"blank\"\nfallback = \"en\"\n\n[messages]\ngreeting = \"hi\"\n";
    let mut res = Resolution::new("en".to_string());
    let key = MessageKey::new("absent".to_string());
    match res.absorb_document(looping, &key) {
        StepOutcome::Failed(TranslateError::FallbackCycle(l)) => assert_eq!(l, "en"),
        _ => panic!("expected FallbackCycle"),
    }
}

#[test]
fn malformed_document_is_a_parse_error() {
    let mut res = Resolution::new("en".to_string());
    let key = MessageKey::new("x".to_string());
    match res.absorb_document("not [ valid toml", &key) {
        StepOutcome::Failed(TranslateError::DocumentParse(l)) => assert_eq!(l, "en"),
        _ => panic!("expected DocumentParse"),
    }
}

#[test]
fn missing_required_field_is_a_parse_error() {
    let text = "territory = \"xx\"\nmodifier = \"blank\"\n\n[messages]\ngreeting = \"hi\"\n";
    assert!(LanguageToml::parse(text).is_none());
}

#[test]
fn document_fields_are_exposed() {
    let text = "language = \"english\"\nterritory = \"us\"\nmodifier = \"euro\"\nfallback = \"de\"\n\n[messages]\ngreeting = \"hi\"\n";
    let d = LanguageToml::parse(text).unwrap();
    assert_eq!(d.get_language(), "english");
    assert_eq!(d.get_territory(), "us");
    assert_eq!(d.get_modifier(), "euro");
    assert_eq!(d.get_fallback(), "de");
    match d.get_messages() {
        MessageNode::Table(_, entries) => assert_eq!(entries.len(), 1),
        _ => panic!("messages should be a table"),
    }
}

#[test]
fn scalar_message_values_are_stringified() {
    let text = "language = \"english\"\nterritory = \"xx\"\nmodifier = \"blank\"\n\n[messages]\ncount = 5\n";
    let d = LanguageToml::parse(text).unwrap();
    let path = vec!["count".to_string()];
    match resolve_path(d.get_messages(), &path) {
        WalkResult::Found(s) => assert_eq!(s, "5"),
        _ => panic!("expected the scalar to resolve"),
    }
}

#[test]
fn walk_through_hand_built_tree() {
    let tree = MessageNode::Table(
        String::new(),
        vec![(
            "outer".to_string(),
            MessageNode::Table(
                String::new(),
                vec![("inner".to_string(), MessageNode::Text("deep".to_string()))],
            ),
        )],
    );
    let doc = LanguageToml::new(
        "english".to_string(),
        "xx".to_string(),
        "blank".to_string(),
        String::new(),
        tree,
    );
    let path = vec!["outer".to_string(), "inner".to_string()];
    match resolve_path(doc.get_messages(), &path) {
        WalkResult::Found(s) => assert_eq!(s, "deep"),
        _ => panic!("expected the nested key to resolve"),
    }
    let bad = vec!["outer".to_string(), "nope".to_string()];
    match resolve_path(doc.get_messages(), &bad) {
        WalkResult::MissingAt(i) => assert_eq!(i, 1),
        _ => panic!("expected the second segment to be missing"),
    }
}

#[test]
fn substitution_replaces_every_occurrence() {
    let t = "Hello, ($name)! Yes, ($name)!".to_string();
    let args = vec![("name".to_string(), "Ada".to_string())];
    assert_eq!(substitute(&t, &args), "Hello, Ada! Yes, Ada!");
}

#[test]
fn unsupplied_placeholder_stays_verbatim() {
    let t = "Hello, ($name)! And ($other).".to_string();
    let args = vec![("name".to_string(), "Ada".to_string())];
    assert_eq!(substitute(&t, &args), "Hello, Ada! And ($other).");
}

#[test]
fn unsupplied_placeholder_survives_many_arguments() {
    let t = "($greet), ($name)! ($other) stays.".to_string();
    let args = vec![
        ("greet".to_string(), "Hello".to_string()),
        ("name".to_string(), "Ada".to_string()),
    ];
    assert_eq!(substitute(&t, &args), "Hello, Ada! ($other) stays.");
}

#[test]
fn parenthesised_names_can_swallow_other_placeholders() {
    // A name containing parentheses sits outside the preservation law:
    // substituting `b` here destroys the placeholder of the name `a($b`.
    let t = "($a($b))".to_string();
    let args = vec![("b".to_string(), "V".to_string())];
    assert_eq!(substitute(&t, &args), "($aV)");
}

#[test]
fn unreferenced_argument_changes_nothing() {
    let t = "plain text".to_string();
    let args = vec![("name".to_string(), "Ada".to_string())];
    assert_eq!(substitute(&t, &args), "plain text");
}

#[test]
fn bold_command_compiles_to_one_styled_run() {
    let runs = compile_markup("(ansi bold)Hello").unwrap();
    assert_eq!(runs.len(), 2);
    assert_eq!(runs[0].text, "");
    assert!(!runs[0].style.bold);
    assert_eq!(runs[1].text, "Hello");
    assert!(runs[1].style.bold);
    assert!(!runs[1].style.italic);
    assert!(runs[1].style.foreground.is_none());
}

#[test]
fn bold_renders_with_escape_codes() {
    let out = ansify_string(&"(ansi bold)Hello".to_string()).unwrap();
    assert_eq!(out, "\u{1b}[1mHello\u{1b}[0m");
}

#[test]
fn named_foreground_color() {
    let runs = compile_markup("(ansi color[red])Stop").unwrap();
    assert_eq!(runs[1].style.foreground, Some(ColorValue::Named(NamedColor::Red)));
    assert_eq!(runs[1].style.background, None);
    let out = ansify_string(&"(ansi color[red])Stop".to_string()).unwrap();
    assert_eq!(out, "\u{1b}[31mStop\u{1b}[0m");
}

#[test]
fn rgb_background_color() {
    let runs = compile_markup("(ansi color[bg;0;255;0])Go").unwrap();
    assert_eq!(runs[1].style.background, Some(ColorValue::Rgb(0, 255, 0)));
    assert_eq!(runs[1].style.foreground, None);
    let out = ansify_string(&"(ansi color[bg;0;255;0])Go".to_string()).unwrap();
    assert_eq!(out, "\u{1b}[48;2;0;255;0mGo\u{1b}[0m");
}

#[test]
fn indexed_color_with_plus_sign() {
    let runs = compile_markup("(ansi color[+5])x").unwrap();
    assert_eq!(runs[1].style.foreground, Some(ColorValue::Indexed(5)));
}

#[test]
fn later_color_directive_wins_per_channel() {
    let runs = compile_markup("(ansi color[red]color[blue])x").unwrap();
    assert_eq!(runs[1].style.foreground, Some(ColorValue::Named(NamedColor::Blue)));
    let runs2 = compile_markup("(ansi color[red]color[bg;blue])x").unwrap();
    assert_eq!(runs2[1].style.foreground, Some(ColorValue::Named(NamedColor::Red)));
    assert_eq!(runs2[1].style.background, Some(ColorValue::Named(NamedColor::Blue)));
}

#[test]
fn string_without_marker_is_unchanged() {
    let out = ansify_string(&"just text)with a paren".to_string()).unwrap();
    assert_eq!(out, "just text)with a paren");
}

#[test]
fn unterminated_command_is_a_syntax_error() {
    match ansify_string(&"(ansi bold".to_string()) {
        Err(TranslateError::MarkupSyntax(p)) => assert_eq!(p, "bold"),
        _ => panic!("expected MarkupSyntax"),
    }
}

#[test]
fn color_without_closing_bracket_is_a_syntax_error() {
    match ansify_string(&"(ansi color[red)x".to_string()) {
        Err(TranslateError::MarkupSyntax(c)) => assert_eq!(c, "color[red"),
        _ => panic!("expected MarkupSyntax"),
    }
}

#[test]
fn out_of_range_index_is_a_color_error() {
    match ansify_string(&"(ansi color[256])x".to_string()) {
        Err(TranslateError::ColorParse(tok)) => assert_eq!(tok, "256"),
        _ => panic!("expected ColorParse"),
    }
}

#[test]
fn unknown_name_is_a_color_error() {
    match ansify_string(&"(ansi color[zzz])x".to_string()) {
        Err(TranslateError::ColorParse(tok)) => assert_eq!(tok, "zzz"),
        _ => panic!("expected ColorParse"),
    }
}

#[test]
fn color_names_are_trimmed_and_case_folded() {
    assert_eq!(ansi_color_from_str(" RED "), Some(NamedColor::Red));
    assert_eq!(ansi_color_from_str("lightgreen"), Some(NamedColor::LightGreen));
    assert_eq!(ansi_color_from_str("default"), Some(NamedColor::DefaultColor));
    assert_eq!(ansi_color_from_str("crimson"), None);
}

#[test]
fn render_template_substitutes_then_styles() {
    let t = "(ansi bold)Hello, ($name)!".to_string();
    let args = vec![("name".to_string(), "Ada".to_string())];
    let out = render_template(&t, &args).unwrap();
    assert_eq!(out, "\u{1b}[1mHello, Ada!\u{1b}[0m");
}

#[test]
fn locale_tag_describes_itself() {
    let p = PosixLanguage::new("en_US.UTF-8@euro".to_string()).unwrap();
    assert_eq!(p.describe(), "lang: en, terr: us, encd: utf-8, mod: euro");
}

#[test]
fn message_key_describes_itself() {
    let k = MessageKey::new("greeting.formal".to_string());
    assert_eq!(k.describe(), "messagekey: greeting,formal");
}

#[test]
fn error_labels_carry_context() {
    let e = TranslateError::KeyNotFound("missing".to_string());
    assert_eq!(e.label(), "message key segment not found: missing");
}

#[test]
fn argument_type_error_labels_the_argument() {
    let e = TranslateError::ArgumentType("count".to_string());
    assert_eq!(e.label(), "argument value has no string form: count");
}

#[test]
fn locale_parse_error_is_unused_by_the_grammar() {
    // The grammar accepts every string, so the resolver's locale-parse
    // failure path is unreachable; the variant still exists for callers.
    let e = TranslateError::LocaleParse("??".to_string());
    assert_eq!(e.label(), "locale string did not parse: ??");
}
