use clauncher::intent::{classify, is_math_expression, parse_conversion, Intent};

fn web_parts(intent: Intent) -> (String, String, String) {
    match intent {
        Intent::WebShortcut { label, template, term } => (label, template, term),
        other => panic!("expected a web shortcut, got {:?}", kind_of(&other)),
    }
}

fn kind_of(intent: &Intent) -> &'static str {
    match intent {
        Intent::WebShortcut { .. } => "web",
        Intent::Calculator { .. } => "calc",
        Intent::TerminalCommand { .. } => "terminal",
        Intent::ClipboardLookup { .. } => "clip",
        Intent::Conversion { .. } => "conversion",
        Intent::PlainSearch => "plain",
    }
}

#[test]
fn google_short_and_long_prefix_agree() {
    let (label_s, template_s, term_s) = web_parts(classify("g:rust", false));
    let (label_l, template_l, term_l) = web_parts(classify("google:rust", false));
    assert_eq!(label_s, "🔍 Google");
    assert_eq!(label_s, label_l);
    assert_eq!(template_s, "https://www.google.com/search?q=");
    assert_eq!(template_s, template_l);
    assert_eq!(term_s, "rust");
    assert_eq!(term_l, "rust");
}

#[test]
fn prefix_matching_is_case_insensitive_and_term_kept_verbatim() {
    let (label, _, term) = web_parts(classify("G: Rust Lang  ", false));
    assert_eq!(label, "🔍 Google");
    assert_eq!(term, "Rust Lang");
}

#[test]
fn every_shortcut_family_classifies() {
    for (query, label) in [
        ("yt:cats", "▶️ YouTube"),
        ("youtube:cats", "▶️ YouTube"),
        ("gh:verus", "🐙 GitHub"),
        ("github:verus", "🐙 GitHub"),
        ("wiki:Brasil", "📖 Wikipedia"),
        ("tr:hello", "🌐 Translate"),
        ("translate:hello", "🌐 Translate"),
        ("r:rust", "🤖 Reddit"),
        ("reddit:rust", "🤖 Reddit"),
        ("so:borrow checker", "📚 Stack Overflow"),
        ("stack:borrow checker", "📚 Stack Overflow"),
        ("amazon:livro", "🛒 Amazon"),
        ("m:manaus", "🗺️ Maps"),
        ("maps:manaus", "🗺️ Maps"),
        ("mail:a@b.c", "📧 Mail"),
        ("email:a@b.c", "📧 Mail"),
    ] {
        let (got, _, _) = web_parts(classify(query, false));
        assert_eq!(got, label, "query {:?}", query);
    }
}

#[test]
fn calculator_explicit_prefix() {
    match classify("calc: 2+2", false) {
        Intent::Calculator { expression, value } => {
            assert_eq!(expression, "2+2");
            assert_eq!(value, "4");
        }
        other => panic!("expected calculator, got {}", kind_of(&other)),
    }
}

#[test]
fn calculator_equals_prefix_and_locale_normalization() {
    match classify("=2x3", false) {
        Intent::Calculator { expression, value } => {
            assert_eq!(expression, "2x3");
            assert_eq!(value, "6");
        }
        other => panic!("expected calculator, got {}", kind_of(&other)),
    }
    match classify("=1,5+1,5", false) {
        Intent::Calculator { value, .. } => assert_eq!(value, "3"),
        other => panic!("expected calculator, got {}", kind_of(&other)),
    }
}

#[test]
fn calculator_auto_detection_is_a_toggled_mode() {
    match classify("10 * (3-1)", true) {
        Intent::Calculator { value, .. } => assert_eq!(value, "20"),
        other => panic!("expected calculator, got {}", kind_of(&other)),
    }
    assert_eq!(kind_of(&classify("10 * (3-1)", false)), "plain");
}

#[test]
fn unparseable_expression_falls_through() {
    assert_eq!(kind_of(&classify("calc: 2+", false)), "plain");
    assert_eq!(kind_of(&classify("++2(", true)), "plain");
}

#[test]
fn terminal_strips_marker_and_whitespace() {
    match classify(">  echo hi  ", false) {
        Intent::TerminalCommand { command } => assert_eq!(command, "echo hi"),
        other => panic!("expected terminal, got {}", kind_of(&other)),
    }
    assert_eq!(kind_of(&classify(">   ", false)), "plain");
}

#[test]
fn clipboard_prefix_keeps_possibly_empty_term() {
    match classify("clip:secret", false) {
        Intent::ClipboardLookup { term } => assert_eq!(term, "secret"),
        other => panic!("expected clipboard lookup, got {}", kind_of(&other)),
    }
    match classify("clip:", false) {
        Intent::ClipboardLookup { term } => assert_eq!(term, ""),
        other => panic!("expected clipboard lookup, got {}", kind_of(&other)),
    }
}

#[test]
fn conversion_query_splits_on_to() {
    match classify("100 usd to brl", false) {
        Intent::Conversion { from, to } => {
            assert_eq!(from, "100 usd");
            assert_eq!(to, "brl");
        }
        other => panic!("expected conversion, got {}", kind_of(&other)),
    }
}

#[test]
fn conversion_query_splits_on_para() {
    match classify("5 km para milhas", false) {
        Intent::Conversion { from, to } => {
            assert_eq!(from, "5 km");
            assert_eq!(to, "milhas");
        }
        other => panic!("expected conversion, got {}", kind_of(&other)),
    }
}

#[test]
fn conversion_needs_exactly_two_nonempty_sides() {
    assert_eq!(kind_of(&classify("a to b to c", false)), "plain");
    assert_eq!(kind_of(&classify(" to b", false)), "plain");
    assert_eq!(kind_of(&classify("a to ", false)), "plain");
}

#[test]
fn intent_order_web_wins_over_conversion() {
    // "g: how to x" carries both a shortcut prefix and " to ": the web
    // rule is checked first and wins.
    let (label, _, term) = web_parts(classify("g: how to x", false));
    assert_eq!(label, "🔍 Google");
    assert_eq!(term, "how to x");
}

#[test]
fn parse_conversion_exact_parts() {
    assert_eq!(
        parse_conversion("100 usd to brl"),
        Some(("100 usd".to_string(), "brl".to_string()))
    );
    assert_eq!(parse_conversion("one two three"), None);
    assert_eq!(parse_conversion("a to b to c"), None);
}

#[test]
fn is_math_expression_needs_digit_and_operator() {
    assert!(is_math_expression("2+2"));
    assert!(is_math_expression("  10 * (3-1) "));
    assert!(!is_math_expression("gibberish"));
    assert!(!is_math_expression("(no digits)"));
    assert!(!is_math_expression("123"));
}

#[test]
fn calc_prefix_with_blank_expression_falls_through() {
    assert_eq!(kind_of(&classify("calc:   ", false)), "plain");
    assert_eq!(kind_of(&classify("=  ", false)), "plain");
}
