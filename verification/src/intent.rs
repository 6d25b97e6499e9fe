//! Intent classification: the tiered grammar that reads a raw query and
//! recognizes zero or one structured meaning — a web-shortcut, a calculator
//! expression, a terminal command, a clipboard lookup or a unit conversion —
//! before any plain search runs. The rules are checked in a fixed priority
//! order (web shortcuts, calculator, terminal, clipboard, conversion) and
//! the first match wins; reordering them would change observable behaviour.

use vstd::prelude::*;

verus! {

use crate::bindings::math_eval_of;
use crate::text::contains_sub;
use crate::text::contains_sub_str;
use crate::text::find_sub;
use crate::text::find_sub_str;
use crate::text::is_digit;
use crate::text::is_digit_char;
use crate::text::lemma_find_sub;
use crate::text::lower;
use crate::text::occurs_at;
use crate::text::skip_str;
use crate::text::starts_with_str;
use crate::text::to_lower_str;
use crate::text::trim_str;
use crate::text::trimmed;

/// The recognized meaning of a query, or `PlainSearch` when none matched.
pub enum Intent {
    /// A web search shortcut: `label` names the engine, `template` is the
    /// URL the encoded `term` is appended to.
    WebShortcut { label: String, template: String, term: String },
    /// An arithmetic expression together with its evaluated value.
    Calculator { expression: String, value: String },
    /// A command to hand to a terminal, from a leading `>`.
    TerminalCommand { command: String },
    /// A lookup in the clipboard history, from a leading `clip:`.
    ClipboardLookup { term: String },
    /// A conversion request split at ` para ` or ` to `.
    Conversion { from: String, to: String },
    PlainSearch,
}

/// The mathematical picture of an `Intent`.
pub enum IntentModel {
    WebShortcut { label: Seq<char>, template: Seq<char>, term: Seq<char> },
    Calculator { expression: Seq<char>, value: Seq<char> },
    TerminalCommand { command: Seq<char> },
    ClipboardLookup { term: Seq<char> },
    Conversion { from: Seq<char>, to: Seq<char> },
    PlainSearch,
}

impl View for Intent {
    type V = IntentModel;

    open spec fn view(&self) -> IntentModel {
        match self {
            Intent::WebShortcut { label, template, term } => IntentModel::WebShortcut {
                label: label@,
                template: template@,
                term: term@,
            },
            Intent::Calculator { expression, value } => IntentModel::Calculator {
                expression: expression@,
                value: value@,
            },
            Intent::TerminalCommand { command } => IntentModel::TerminalCommand {
                command: command@,
            },
            Intent::ClipboardLookup { term } => IntentModel::ClipboardLookup { term: term@ },
            Intent::Conversion { from, to } => IntentModel::Conversion { from: from@, to: to@ },
            Intent::PlainSearch => IntentModel::PlainSearch,
        }
    }
}

// ---------------------------------------------------------------------------
// Web shortcuts
// ---------------------------------------------------------------------------

/// The search term of a shortcut query: everything after the first `:`,
/// trimmed. The literal query text is kept; only matching is lowercased.
pub open spec fn shortcut_term(t: Seq<char>) -> Seq<char> {
    match find_sub(t, ":"@) {
        Some(i) => trimmed(t.skip(i + 1)),
        None => Seq::empty(),
    }
}

/// A shortcut intent for the family with the given label and URL template.
pub open spec fn web_of(t: Seq<char>, label: Seq<char>, template: Seq<char>) -> IntentModel {
    IntentModel::WebShortcut { label, template, term: shortcut_term(t) }
}

/// The web-shortcut rule: the first family whose short or long prefix the
/// lowercased query starts with, in the fixed family order.
pub open spec fn web_intent(t: Seq<char>) -> Option<IntentModel> {
    let tl = lower(t);
    if "g:"@.is_prefix_of(tl) || "google:"@.is_prefix_of(tl) {
        Some(web_of(t, "🔍 Google"@, "https://www.google.com/search?q="@))
    } else if "yt:"@.is_prefix_of(tl) || "youtube:"@.is_prefix_of(tl) {
        Some(web_of(t, "▶️ YouTube"@, "https://www.youtube.com/results?search_query="@))
    } else if "gh:"@.is_prefix_of(tl) || "github:"@.is_prefix_of(tl) {
        Some(web_of(t, "🐙 GitHub"@, "https://github.com/search?q="@))
    } else if "wiki:"@.is_prefix_of(tl) {
        Some(web_of(t, "📖 Wikipedia"@, "https://pt.wikipedia.org/wiki/"@))
    } else if "tr:"@.is_prefix_of(tl) || "translate:"@.is_prefix_of(tl) {
        Some(web_of(t, "🌐 Translate"@, "https://translate.google.com/?sl=auto&tl=pt&text="@))
    } else if "r:"@.is_prefix_of(tl) || "reddit:"@.is_prefix_of(tl) {
        Some(web_of(t, "🤖 Reddit"@, "https://www.reddit.com/search/?q="@))
    } else if "so:"@.is_prefix_of(tl) || "stack:"@.is_prefix_of(tl) {
        Some(web_of(t, "📚 Stack Overflow"@, "https://stackoverflow.com/search?q="@))
    } else if "amazon:"@.is_prefix_of(tl) {
        Some(web_of(t, "🛒 Amazon"@, "https://www.amazon.com.br/s?k="@))
    } else if "m:"@.is_prefix_of(tl) || "maps:"@.is_prefix_of(tl) {
        Some(web_of(t, "🗺️ Maps"@, "https://www.google.com/maps/search/"@))
    } else if "mail:"@.is_prefix_of(tl) || "email:"@.is_prefix_of(tl) {
        Some(web_of(t, "📧 Mail"@, "mailto:"@))
    } else {
        None
    }
}

// ---------------------------------------------------------------------------
// Calculator
// ---------------------------------------------------------------------------

/// Locale normalization before evaluation: `x` and `×` mean multiply,
/// `÷` means divide, a decimal comma means a decimal point.
pub open spec fn norm_math_char(c: char) -> char {
    if c == 'x' || c == '\u{00d7}' {
        '*'
    } else if c == '\u{00f7}' {
        '/'
    } else if c == ',' {
        '.'
    } else {
        c
    }
}

pub open spec fn norm_math(s: Seq<char>) -> Seq<char> {
    s.map_values(|c: char| norm_math_char(c))
}

/// The operator characters of the "looks like math" heuristic.
pub open spec fn is_math_op(c: char) -> bool {
    c == '+' || c == '-' || c == '*' || c == '/' || c == '^' || c == '('
}

pub open spec fn has_digit(s: Seq<char>) -> bool {
    exists|i: int| 0 <= i < s.len() && is_digit(s[i])
}

pub open spec fn has_math_op(s: Seq<char>) -> bool {
    exists|i: int| 0 <= i < s.len() && is_math_op(s[i])
}

/// The auto-detection heuristic: at least one digit and one operator.
pub open spec fn math_looking(s: Seq<char>) -> bool {
    has_digit(s) && has_math_op(s)
}

/// Evaluation of a candidate expression; failure to evaluate means the
/// calculator rule did not match at all.
pub open spec fn calc_try(expr: Seq<char>) -> Option<IntentModel> {
    match math_eval_of(norm_math(expr)) {
        Some(v) => Some(IntentModel::Calculator { expression: expr, value: v }),
        None => None,
    }
}

/// The calculator rule: an explicit `calc:` or `=` prefix, or — when the
/// auto-detection mode is on — anything that looks like arithmetic.
pub open spec fn calc_intent(t: Seq<char>, auto_math: bool) -> Option<IntentModel> {
    let tl = lower(t);
    if "calc:"@.is_prefix_of(tl) {
        calc_try(trimmed(t.skip("calc:"@.len() as int)))
    } else if "="@.is_prefix_of(tl) {
        calc_try(trimmed(t.skip("="@.len() as int)))
    } else if auto_math && math_looking(t) {
        calc_try(t)
    } else {
        None
    }
}

// ---------------------------------------------------------------------------
// Terminal, clipboard, conversion
// ---------------------------------------------------------------------------

/// The terminal rule: a leading `>` with non-empty trimmed remainder.
pub open spec fn terminal_intent(t: Seq<char>) -> Option<IntentModel> {
    if t.len() > 0 && t[0] == '>' && trimmed(t.skip(1)).len() > 0 {
        Some(IntentModel::TerminalCommand { command: trimmed(t.skip(1)) })
    } else {
        None
    }
}

/// The clipboard rule: a leading `clip:`; the filter term may be empty.
pub open spec fn clipboard_intent(t: Seq<char>) -> Option<IntentModel> {
    if "clip:"@.is_prefix_of(lower(t)) {
        Some(IntentModel::ClipboardLookup { term: trimmed(t.skip("clip:"@.len() as int)) })
    } else {
        None
    }
}

/// The conversion split: at the first ` para ` if one occurs, else at the
/// first ` to `; it matches only when that separator occurs exactly once
/// and both trimmed sides are non-empty.
pub open spec fn conversion_parts(q: Seq<char>) -> Option<(Seq<char>, Seq<char>)> {
    let sep: Seq<char> = if contains_sub(q, " para "@) {
        " para "@
    } else {
        " to "@
    };
    if contains_sub(q, sep) {
        let i = find_sub(q, sep).unwrap();
        let pre = trimmed(q.take(i));
        let post_raw = q.skip(i + sep.len());
        if !contains_sub(post_raw, sep) && pre.len() > 0 && trimmed(post_raw).len() > 0 {
            Some((pre, trimmed(post_raw)))
        } else {
            None
        }
    } else {
        None
    }
}

pub open spec fn conversion_intent(t: Seq<char>) -> Option<IntentModel> {
    match conversion_parts(t) {
        Some(p) => Some(IntentModel::Conversion { from: p.0, to: p.1 }),
        None => None,
    }
}

// ---------------------------------------------------------------------------
// The classifier
// ---------------------------------------------------------------------------

/// The whole grammar over an already-trimmed query, first match wins.
pub open spec fn classify_spec(t: Seq<char>, auto_math: bool) -> IntentModel {
    if web_intent(t) is Some {
        web_intent(t).unwrap()
    } else if calc_intent(t, auto_math) is Some {
        calc_intent(t, auto_math).unwrap()
    } else if terminal_intent(t) is Some {
        terminal_intent(t).unwrap()
    } else if clipboard_intent(t) is Some {
        clipboard_intent(t).unwrap()
    } else if conversion_intent(t) is Some {
        conversion_intent(t).unwrap()
    } else {
        IntentModel::PlainSearch
    }
}

/// Everything after the first `:`, trimmed; empty when no `:` occurs.
fn shortcut_term_str(t: &str) -> (r: String)
    ensures
        r@ == shortcut_term(t@),
{
    let n = t.unicode_len();
    match find_sub_str(t, ":") {
        Some(i) => {
            proof {
                lemma_find_sub(t@, ":"@);
                reveal_strlit(":");
                assert(occurs_at(t@, ":"@, i as int));
                assert(t@.skip(i as int).len() >= 1);
                assert(i < n);
            }
            let rest = skip_str(t, i + 1);
            String::from_str(trim_str(rest))
        },
        None => String::new(),
    }
}

/// Normalizes the locale variants of the arithmetic operators.
fn norm_math_str(s: &str) -> (r: String)
    ensures
        r@ == norm_math(s@),
{
    let n = s.unicode_len();
    let mut out = String::new();
    let mut i: usize = 0;
    while i < n
        invariant
            0 <= i <= n,
            n == s@.len(),
            out@ == norm_math(s@.take(i as int)),
        decreases n - i,
    {
        let c = s.get_char(i);
        let m: char = if c == 'x' || c == '\u{00d7}' {
            '*'
        } else if c == '\u{00f7}' {
            '/'
        } else if c == ',' {
            '.'
        } else {
            c
        };
        crate::text::push_char_str(&mut out, m);
        proof {
            assert(norm_math(s@.take(i + 1)) =~= norm_math(s@.take(i as int)).push(
                norm_math_char(s@[i as int]),
            ));
        }
        i = i + 1;
    }
    proof {
        assert(s@.take(n as int) =~= s@);
    }
    out
}

proof fn lemma_has_digit_push(s: Seq<char>, c: char)
    ensures
        has_digit(s.push(c)) == (has_digit(s) || is_digit(c)),
{
    if has_digit(s) {
        let w = choose|j: int| 0 <= j < s.len() && is_digit(s[j]);
        assert(s.push(c)[w] == s[w]);
    }
    if is_digit(c) {
        assert(s.push(c)[s.len() as int] == c);
    }
    if has_digit(s.push(c)) && !is_digit(c) {
        let w = choose|j: int| 0 <= j < s.push(c).len() && is_digit(s.push(c)[j]);
        assert(w < s.len());
        assert(s[w] == s.push(c)[w]);
    }
}

proof fn lemma_has_math_op_push(s: Seq<char>, c: char)
    ensures
        has_math_op(s.push(c)) == (has_math_op(s) || is_math_op(c)),
{
    if has_math_op(s) {
        let w = choose|j: int| 0 <= j < s.len() && is_math_op(s[j]);
        assert(s.push(c)[w] == s[w]);
    }
    if is_math_op(c) {
        assert(s.push(c)[s.len() as int] == c);
    }
    if has_math_op(s.push(c)) && !is_math_op(c) {
        let w = choose|j: int| 0 <= j < s.push(c).len() && is_math_op(s.push(c)[j]);
        assert(w < s.len());
        assert(s[w] == s.push(c)[w]);
    }
}

/// Whether the trimmed text contains at least one digit and one of the
/// operator characters `+ - * / ^ (` — the "looks like math" heuristic.
pub fn is_math_expression(s: &str) -> (r: bool)
    ensures
        r == math_looking(trimmed(s@)),
{
    let t = trim_str(s);
    let n = t.unicode_len();
    let mut saw_digit = false;
    let mut saw_op = false;
    let mut i: usize = 0;
    while i < n
        invariant
            0 <= i <= n,
            n == t@.len(),
            t@ == trimmed(s@),
            saw_digit == has_digit(t@.take(i as int)),
            saw_op == has_math_op(t@.take(i as int)),
        decreases n - i,
    {
        let c = t.get_char(i);
        let d = is_digit_char(c);
        let o = c == '+' || c == '-' || c == '*' || c == '/' || c == '^' || c == '(';
        proof {
            assert(t@.take(i + 1) =~= t@.take(i as int).push(t@[i as int]));
            lemma_has_digit_push(t@.take(i as int), t@[i as int]);
            lemma_has_math_op_push(t@.take(i as int), t@[i as int]);
        }
        saw_digit = saw_digit || d;
        saw_op = saw_op || o;
        i = i + 1;
    }
    proof {
        assert(t@.take(n as int) =~= t@);
    }
    saw_digit && saw_op
}

/// Splits a conversion query at ` para ` or ` to `, returning the two
/// trimmed sides when the separator occurs exactly once and neither side
/// is empty.
pub fn parse_conversion(query: &str) -> (r: Option<(String, String)>)
    ensures
        match r {
            Some(p) => conversion_parts(query@) == Some((p.0@, p.1@)),
            None => conversion_parts(query@) is None,
        },
{
    let sep: &str = if contains_sub_str(query, " para ") {
        " para "
    } else {
        " to "
    };
    let qn = query.unicode_len();
    match find_sub_str(query, sep) {
        Some(i) => {
            proof {
                lemma_find_sub(query@, sep@);
                assert(occurs_at(query@, sep@, i as int));
                assert(query@.skip(i as int).len() >= sep@.len());
            }
            let sep_len = sep.unicode_len();
            proof {
                assert(i + sep_len <= qn);
            }
            let pre = trim_str(query.substring_char(0, i));
            let post = skip_str(query, i + sep_len);
            proof {
                assert(query@.subrange(0, i as int) =~= query@.take(i as int));
            }
            if contains_sub_str(post, sep) {
                return None;
            }
            if pre.is_empty() {
                return None;
            }
            let post_t = trim_str(post);
            if post_t.is_empty() {
                return None;
            }
            Some((String::from_str(pre), String::from_str(post_t)))
        },
        None => None,
    }
}

/// Classifies a raw query: trims it, then applies the grammar in its fixed
/// priority order. `auto_math` switches the no-prefix calculator detection
/// on; everything else is unconditional.
pub fn classify(query: &str, auto_math: bool) -> (r: Intent)
    ensures
        r@ == classify_spec(trimmed(query@), auto_math),
{
    let t = trim_str(query);
    proof {
        crate::text::lemma_trimmed_idempotent(query@);
    }
    let tl_string = to_lower_str(t);
    let tl = tl_string.as_str();
    if starts_with_str(tl, "g:") || starts_with_str(tl, "google:") {
        return Intent::WebShortcut {
            label: String::from_str("🔍 Google"),
            template: String::from_str("https://www.google.com/search?q="),
            term: shortcut_term_str(t),
        };
    }
    if starts_with_str(tl, "yt:") || starts_with_str(tl, "youtube:") {
        return Intent::WebShortcut {
            label: String::from_str("▶️ YouTube"),
            template: String::from_str("https://www.youtube.com/results?search_query="),
            term: shortcut_term_str(t),
        };
    }
    if starts_with_str(tl, "gh:") || starts_with_str(tl, "github:") {
        return Intent::WebShortcut {
            label: String::from_str("🐙 GitHub"),
            template: String::from_str("https://github.com/search?q="),
            term: shortcut_term_str(t),
        };
    }
    if starts_with_str(tl, "wiki:") {
        return Intent::WebShortcut {
            label: String::from_str("📖 Wikipedia"),
            template: String::from_str("https://pt.wikipedia.org/wiki/"),
            term: shortcut_term_str(t),
        };
    }
    if starts_with_str(tl, "tr:") || starts_with_str(tl, "translate:") {
        return Intent::WebShortcut {
            label: String::from_str("🌐 Translate"),
            template: String::from_str("https://translate.google.com/?sl=auto&tl=pt&text="),
            term: shortcut_term_str(t),
        };
    }
    if starts_with_str(tl, "r:") || starts_with_str(tl, "reddit:") {
        return Intent::WebShortcut {
            label: String::from_str("🤖 Reddit"),
            template: String::from_str("https://www.reddit.com/search/?q="),
            term: shortcut_term_str(t),
        };
    }
    if starts_with_str(tl, "so:") || starts_with_str(tl, "stack:") {
        return Intent::WebShortcut {
            label: String::from_str("📚 Stack Overflow"),
            template: String::from_str("https://stackoverflow.com/search?q="),
            term: shortcut_term_str(t),
        };
    }
    if starts_with_str(tl, "amazon:") {
        return Intent::WebShortcut {
            label: String::from_str("🛒 Amazon"),
            template: String::from_str("https://www.amazon.com.br/s?k="),
            term: shortcut_term_str(t),
        };
    }
    if starts_with_str(tl, "m:") || starts_with_str(tl, "maps:") {
        return Intent::WebShortcut {
            label: String::from_str("🗺️ Maps"),
            template: String::from_str("https://www.google.com/maps/search/"),
            term: shortcut_term_str(t),
        };
    }
    if starts_with_str(tl, "mail:") || starts_with_str(tl, "email:") {
        return Intent::WebShortcut {
            label: String::from_str("📧 Mail"),
            template: String::from_str("mailto:"),
            term: shortcut_term_str(t),
        };
    }
    if starts_with_str(tl, "calc:") {
        let plen = "calc:".unicode_len();
        let expr = trim_str(skip_str(t, plen));
        proof {
            crate::text::lemma_trimmed_idempotent(t@.skip(plen as int));
        }
        if let Some(intent) = calc_try_str(expr) {
            return intent;
        }
    } else if starts_with_str(tl, "=") {
        let plen = "=".unicode_len();
        let expr = trim_str(skip_str(t, plen));
        proof {
            crate::text::lemma_trimmed_idempotent(t@.skip(plen as int));
        }
        if let Some(intent) = calc_try_str(expr) {
            return intent;
        }
    } else if auto_math && is_math_expression(t) {
        if let Some(intent) = calc_try_str(t) {
            return intent;
        }
    }
    if !t.is_empty() && t.get_char(0) == '>' {
        let rest = trim_str(skip_str(t, 1));
        if !rest.is_empty() {
            return Intent::TerminalCommand { command: String::from_str(rest) };
        }
    }
    if starts_with_str(tl, "clip:") {
        let plen = "clip:".unicode_len();
        let term = trim_str(skip_str(t, plen));
        return Intent::ClipboardLookup { term: String::from_str(term) };
    }
    if let Some(parts) = parse_conversion(t) {
        return Intent::Conversion { from: parts.0, to: parts.1 };
    }
    Intent::PlainSearch
}

/// Evaluates a candidate calculator expression; `None` when it does not
/// parse or evaluate, which makes the calculator rule fall through. The
/// expression comes in trimmed, so the evaluator never sees whitespace-
/// only text (which its tokenizer cannot take).
fn calc_try_str(expr: &str) -> (r: Option<Intent>)
    requires
        expr@.len() == 0 || !crate::text::is_space(expr@[0]),
    ensures
        match r {
            Some(intent) => calc_try(expr@) == Some(intent@),
            None => calc_try(expr@) is None,
        },
{
    let norm = norm_math_str(expr);
    proof {
        assert(norm@.len() == expr@.len());
        if expr@.len() > 0 {
            assert(norm@[0] == norm_math_char(expr@[0]));
            assert(!crate::text::is_space(norm_math_char(expr@[0])));
        }
    }
    match crate::bindings::eval_math(norm.as_str()) {
        Some(v) => Some(Intent::Calculator { expression: String::from_str(expr), value: v }),
        None => None,
    }
}

} // verus!
