//! The ranker/merger and the library's entry point: `search` classifies
//! the query, short-circuits on a recognized intent, and otherwise fans
//! out to the aggregators, deduplicates, sorts and truncates. The whole
//! pipeline is pinned by `spec_search`: the result is a function of the
//! query and the source snapshots alone, so two searches over unchanged
//! sources return identical lists.

use vstd::prelude::*;

verus! {

use crate::aggregate::EntryModel;
use crate::aggregate::FileEntry;
use crate::aggregate::curated_default;
use crate::aggregate::curated_results;
use crate::aggregate::dir_results;
use crate::aggregate::entry_models;
use crate::aggregate::exec_results;
use crate::aggregate::get_common_apps;
use crate::aggregate::search_common_apps;
use crate::aggregate::search_directory_entries;
use crate::aggregate::search_executable_entries;
use crate::bindings::fuzzy_score_of;
use crate::bindings::math_eval_of;
use crate::bindings::url_encode;
use crate::bindings::url_encoded_of;
use crate::clipboard::ClipModel;
use crate::clipboard::ClipboardEntry;
use crate::clipboard::clip_models;
use crate::clipboard::clip_results;
use crate::intent::Intent;
use crate::intent::IntentModel;
use crate::intent::classify;
use crate::intent::classify_spec;
use crate::intent::norm_math;
use crate::rank::dedup_by_path;
use crate::rank::dedup_results;
use crate::rank::lemma_dedup_contains;
use crate::rank::lemma_sort_desc_props;
use crate::rank::sort_desc;
use crate::rank::sort_results;
use crate::rank::sorted_desc;
use crate::results::FileResult;
use crate::results::MAX_RESULTS;
use crate::results::DIR_RESULT_CAP;
use crate::results::ResultModel;
use crate::results::SCORE_INTENT;
use crate::results::SCORE_TERMINAL;
use crate::results::models;
use crate::results::trunc;
use crate::text::lower;
use crate::text::to_lower_str;
use crate::text::trim_str;
use crate::text::trimmed;

// ---------------------------------------------------------------------------
// The synthetic single results of the intents
// ---------------------------------------------------------------------------

/// The one result of a web-shortcut intent: the URL template with the
/// percent-encoded term appended, at the intent score band.
pub open spec fn web_result(label: Seq<char>, template: Seq<char>, term: Seq<char>) -> ResultModel {
    ResultModel {
        name: label + " : "@ + term,
        path: template + url_encoded_of(term),
        is_app: true,
        score: SCORE_INTENT as int,
    }
}

/// The one result of a calculator intent: the fixed calculator label with
/// the evaluated value embedded.
pub open spec fn calc_result(value: Seq<char>) -> ResultModel {
    ResultModel {
        name: "🧮 = "@ + value,
        path: "result:"@ + value,
        is_app: true,
        score: SCORE_INTENT as int,
    }
}

/// The one result of a terminal intent, at the maximum score band.
pub open spec fn terminal_result(command: Seq<char>) -> ResultModel {
    ResultModel {
        name: "💻 Executar: "@ + command,
        path: "terminal:"@ + command,
        is_app: true,
        score: SCORE_TERMINAL as int,
    }
}

/// The two sides of a conversion joined for the fallback web search.
pub open spec fn conversion_joined(from: Seq<char>, to: Seq<char>) -> Seq<char> {
    from + " to "@ + to
}

/// The one result of a conversion intent: a web search for the pair.
pub open spec fn conversion_result(from: Seq<char>, to: Seq<char>) -> ResultModel {
    ResultModel {
        name: "💱 Converter "@ + from + " para "@ + to,
        path: "https://www.google.com/search?q="@ + url_encoded_of(conversion_joined(from, to)),
        is_app: true,
        score: SCORE_INTENT as int,
    }
}

// ---------------------------------------------------------------------------
// The whole pipeline as one spec function
// ---------------------------------------------------------------------------

/// Every candidate of a plain search, in the fixed fan-out order:
/// directory search, executable index, curated registry.
pub open spec fn plain_candidates(
    files: Seq<EntryModel>,
    execs: Seq<EntryModel>,
    ql: Seq<char>,
) -> Seq<ResultModel> {
    dir_results(files, ql, DIR_RESULT_CAP as nat) + exec_results(execs, ql) + curated_results(
        curated_default(),
        ql,
    )
}

/// A plain search ranked: deduplicated by dispatch token, stably sorted
/// descending by score, cut to the result cap.
pub open spec fn plain_ranked(
    files: Seq<EntryModel>,
    execs: Seq<EntryModel>,
    ql: Seq<char>,
) -> Seq<ResultModel> {
    trunc(sort_desc(dedup_by_path(plain_candidates(files, execs, ql))), MAX_RESULTS as int)
}

/// What `search` returns, as a function of the query and the snapshots
/// alone: the curated default on an empty query, one synthetic result per
/// matched intent (the clipboard lookup instead runs its own aggregator),
/// and the ranked fan-out otherwise.
pub open spec fn spec_search(
    q: Seq<char>,
    files: Seq<EntryModel>,
    execs: Seq<EntryModel>,
    clips: Seq<ClipModel>,
    auto_math: bool,
) -> Seq<ResultModel> {
    let t = trimmed(q);
    if t.len() == 0 {
        curated_default()
    } else {
        match classify_spec(t, auto_math) {
            IntentModel::WebShortcut { label, template, term } => seq![
                web_result(label, template, term),
            ],
            IntentModel::Calculator { expression: _, value } => seq![calc_result(value)],
            IntentModel::TerminalCommand { command } => seq![terminal_result(command)],
            IntentModel::ClipboardLookup { term } => trunc(
                clip_results(clips, term),
                MAX_RESULTS as int,
            ),
            IntentModel::Conversion { from, to } => seq![conversion_result(from, to)],
            IntentModel::PlainSearch => plain_ranked(files, execs, lower(t)),
        }
    }
}

/// The entry point: one query against the host's snapshots of the file
/// enumeration, the executable index and the clipboard history. The
/// result is pinned to `spec_search` of the inputs, so it is
/// deterministic: unchanged inputs give an identical ordered list.
pub fn search(
    query: &str,
    files: &Vec<FileEntry>,
    executables: &Vec<FileEntry>,
    clipboard: &Vec<ClipboardEntry>,
    auto_math: bool,
) -> (r: Vec<FileResult>)
    ensures
        models(r@) == spec_search(
            query@,
            entry_models(files@),
            entry_models(executables@),
            clip_models(clipboard@),
            auto_math,
        ),
{
    let t = trim_str(query);
    if t.is_empty() {
        return get_common_apps();
    }
    let intent = classify(query, auto_math);
    match intent {
        Intent::WebShortcut { label, template, term } => {
            let encoded = url_encode(term.as_str());
            let path = template.concat(encoded.as_str());
            let name = label.concat(" : ").concat(term.as_str());
            let mut out: Vec<FileResult> = Vec::new();
            out.push(FileResult::new(name, path, true, SCORE_INTENT));
            proof {
                assert(models(out@) =~~= spec_search(
                    query@,
                    entry_models(files@),
                    entry_models(executables@),
                    clip_models(clipboard@),
                    auto_math,
                ));
            }
            out
        },
        Intent::Calculator { expression: _, value } => {
            let path = String::from_str("result:").concat(value.as_str());
            let name = String::from_str("🧮 = ").concat(value.as_str());
            let mut out: Vec<FileResult> = Vec::new();
            out.push(FileResult::new(name, path, true, SCORE_INTENT));
            proof {
                assert(models(out@) =~~= spec_search(
                    query@,
                    entry_models(files@),
                    entry_models(executables@),
                    clip_models(clipboard@),
                    auto_math,
                ));
            }
            out
        },
        Intent::TerminalCommand { command } => {
            let name = String::from_str("💻 Executar: ").concat(command.as_str());
            let path = String::from_str("terminal:").concat(command.as_str());
            let mut out: Vec<FileResult> = Vec::new();
            out.push(FileResult::new(name, path, true, SCORE_TERMINAL));
            proof {
                assert(models(out@) =~~= spec_search(
                    query@,
                    entry_models(files@),
                    entry_models(executables@),
                    clip_models(clipboard@),
                    auto_math,
                ));
            }
            out
        },
        Intent::ClipboardLookup { term } => {
            let mut out = crate::clipboard::lookup(clipboard, term.as_str());
            proof {
                assert(models(out@) == clip_results(clip_models(clipboard@), term@));
            }
            out.truncate(MAX_RESULTS);
            proof {
                let full = clip_results(clip_models(clipboard@), term@);
                if full.len() <= MAX_RESULTS as int {
                    assert(models(out@) =~~= trunc(full, MAX_RESULTS as int));
                } else {
                    assert(models(out@) =~~= full.take(MAX_RESULTS as int));
                }
            }
            out
        },
        Intent::Conversion { from, to } => {
            let name = String::from_str("💱 Converter ")
                .concat(from.as_str())
                .concat(" para ")
                .concat(to.as_str());
            let joined = from.concat(" to ").concat(to.as_str());
            let encoded = url_encode(joined.as_str());
            let path = String::from_str("https://www.google.com/search?q=").concat(
                encoded.as_str(),
            );
            let mut out: Vec<FileResult> = Vec::new();
            out.push(FileResult::new(name, path, true, SCORE_INTENT));
            proof {
                assert(models(out@) =~~= spec_search(
                    query@,
                    entry_models(files@),
                    entry_models(executables@),
                    clip_models(clipboard@),
                    auto_math,
                ));
            }
            out
        },
        Intent::PlainSearch => {
            let ql = to_lower_str(t);
            let mut all = search_directory_entries(files, ql.as_str());
            let mut from_index = search_executable_entries(executables, ql.as_str());
            let mut curated = search_common_apps(ql.as_str());
            all.append(&mut from_index);
            all.append(&mut curated);
            proof {
                assert(models(all@) =~~= plain_candidates(
                    entry_models(files@),
                    entry_models(executables@),
                    lower(t@),
                ));
            }
            let deduped = dedup_results(&all);
            let mut ranked = sort_results(&deduped);
            ranked.truncate(MAX_RESULTS);
            proof {
                let full = sort_desc(
                    dedup_by_path(
                        plain_candidates(
                            entry_models(files@),
                            entry_models(executables@),
                            lower(t@),
                        ),
                    ),
                );
                if full.len() <= MAX_RESULTS as int {
                    assert(models(ranked@) =~~= trunc(full, MAX_RESULTS as int));
                } else {
                    assert(models(ranked@) =~~= full.take(MAX_RESULTS as int));
                }
            }
            ranked
        },
    }
}

// ---------------------------------------------------------------------------
// Laws
// ---------------------------------------------------------------------------

/// An all-whitespace query matches no intent rule: every prefix is
/// non-empty and every other rule needs at least one character.
proof fn lemma_classify_nonempty(t: Seq<char>, auto_math: bool)
    ensures
        t.len() == 0 ==> classify_spec(t, auto_math) == IntentModel::PlainSearch,
{
    if t.len() == 0 {
        reveal_strlit("g:");
        reveal_strlit("google:");
        reveal_strlit("yt:");
        reveal_strlit("youtube:");
        reveal_strlit("gh:");
        reveal_strlit("github:");
        reveal_strlit("wiki:");
        reveal_strlit("tr:");
        reveal_strlit("translate:");
        reveal_strlit("r:");
        reveal_strlit("reddit:");
        reveal_strlit("so:");
        reveal_strlit("stack:");
        reveal_strlit("amazon:");
        reveal_strlit("m:");
        reveal_strlit("maps:");
        reveal_strlit("mail:");
        reveal_strlit("email:");
        reveal_strlit("calc:");
        reveal_strlit("=");
        reveal_strlit("clip:");
        reveal_strlit(" para ");
        reveal_strlit(" to ");
        assert(lower(t).len() == 0);
        assert(crate::intent::web_intent(t) is None);
        assert(crate::intent::calc_intent(t, auto_math) is None);
        assert(crate::intent::terminal_intent(t) is None);
        assert(crate::intent::clipboard_intent(t) is None);
        assert(crate::text::find_sub(t, " para "@) is None);
        assert(crate::text::find_sub(t, " to "@) is None);
        assert(crate::intent::conversion_intent(t) is None);
    }
}

/// Law: a query recognized as a web shortcut yields exactly one result,
/// whose dispatch token is the family's URL template with the percent-
/// encoded term appended, at the web-shortcut score band.
pub proof fn lemma_web_shortcut_search(
    q: Seq<char>,
    files: Seq<EntryModel>,
    execs: Seq<EntryModel>,
    clips: Seq<ClipModel>,
    auto_math: bool,
    label: Seq<char>,
    template: Seq<char>,
    term: Seq<char>,
)
    requires
        classify_spec(trimmed(q), auto_math) == (IntentModel::WebShortcut {
            label,
            template,
            term,
        }),
    ensures
        spec_search(q, files, execs, clips, auto_math) == seq![web_result(label, template, term)],
        web_result(label, template, term).path == template + url_encoded_of(term),
        web_result(label, template, term).score == SCORE_INTENT as int,
{
    lemma_classify_nonempty(trimmed(q), auto_math);
}

/// Law: a query recognized as a terminal command yields exactly one
/// result, whose dispatch token is `terminal:` plus the stripped command,
/// at the maximum score band.
pub proof fn lemma_terminal_search(
    q: Seq<char>,
    files: Seq<EntryModel>,
    execs: Seq<EntryModel>,
    clips: Seq<ClipModel>,
    auto_math: bool,
    command: Seq<char>,
)
    requires
        classify_spec(trimmed(q), auto_math) == (IntentModel::TerminalCommand { command }),
    ensures
        spec_search(q, files, execs, clips, auto_math) == seq![terminal_result(command)],
        terminal_result(command).path == "terminal:"@ + command,
        terminal_result(command).score == SCORE_TERMINAL as int,
{
    lemma_classify_nonempty(trimmed(q), auto_math);
}

/// Law: a query recognized as a calculator expression yields exactly one
/// result; the value is what the evaluator returned for the normalized
/// expression, and the label embeds that value.
pub proof fn lemma_calculator_search(
    q: Seq<char>,
    files: Seq<EntryModel>,
    execs: Seq<EntryModel>,
    clips: Seq<ClipModel>,
    auto_math: bool,
    expression: Seq<char>,
    value: Seq<char>,
)
    requires
        classify_spec(trimmed(q), auto_math) == (IntentModel::Calculator { expression, value }),
    ensures
        spec_search(q, files, execs, clips, auto_math) == seq![calc_result(value)],
        math_eval_of(norm_math(expression)) == Some(value),
        calc_result(value).name == "🧮 = "@ + value,
{
    lemma_classify_nonempty(trimmed(q), auto_math);
}

/// Law: an empty (or all-whitespace) query returns the curated registry
/// itself — its fixed entries, in curated order, at their fixed ranks —
/// untouched by any classification, scoring or enumeration.
pub proof fn lemma_empty_query_default(
    q: Seq<char>,
    files: Seq<EntryModel>,
    execs: Seq<EntryModel>,
    clips: Seq<ClipModel>,
    auto_math: bool,
)
    requires
        trimmed(q).len() == 0,
    ensures
        spec_search(q, files, execs, clips, auto_math) == curated_default(),
{
}

/// Law: on a non-empty query that matches no intent, the returned list is
/// sorted descending by score, holds at most `MAX_RESULTS` entries, and
/// every entry's label fuzzy-matched the lowercased query.
pub proof fn lemma_plain_search_ranked(
    q: Seq<char>,
    files: Seq<EntryModel>,
    execs: Seq<EntryModel>,
    clips: Seq<ClipModel>,
    auto_math: bool,
)
    requires
        trimmed(q).len() > 0,
        classify_spec(trimmed(q), auto_math) == IntentModel::PlainSearch,
    ensures
        sorted_desc(spec_search(q, files, execs, clips, auto_math)),
        spec_search(q, files, execs, clips, auto_math).len() <= MAX_RESULTS as int,
        forall|k: int|
            0 <= k < spec_search(q, files, execs, clips, auto_math).len() ==> fuzzy_score_of(
                lower(#[trigger] spec_search(q, files, execs, clips, auto_math)[k].name),
                lower(trimmed(q)),
            ) is Some,
{
    let t = trimmed(q);
    let ql = lower(t);
    let cands = plain_candidates(files, execs, ql);
    let ded = dedup_by_path(cands);
    lemma_sort_desc_props(ded);
    let srt = sort_desc(ded);
    let r = trunc(srt, MAX_RESULTS as int);
    assert(spec_search(q, files, execs, clips, auto_math) == r);
    assert(sorted_desc(r)) by {
        assert forall|i: int, j: int| 0 <= i < j < r.len() implies r[i].score >= r[j].score by {
            assert(r[i] == srt[i]);
            assert(r[j] == srt[j]);
        }
    }
    assert forall|k: int| 0 <= k < r.len() implies fuzzy_score_of(
        lower(#[trigger] r[k].name),
        ql,
    ) is Some by {
        let y = r[k];
        assert(srt[k] == y);
        assert(srt.contains(y));
        assert(ded.contains(y));
        lemma_dedup_contains(cands, y);
        assert(cands.contains(y));
        let w = choose|j: int| 0 <= j < cands.len() && cands[j] == y;
        let d = dir_results(files, ql, DIR_RESULT_CAP as nat);
        let x = exec_results(execs, ql);
        let c = curated_results(curated_default(), ql);
        if w < d.len() + x.len() {
            if w < d.len() {
                assert(cands[w] == d[w]);
                assert(d.contains(y));
                crate::aggregate::lemma_dir_results_matched(files, ql, DIR_RESULT_CAP as nat, y);
            } else {
                assert(cands[w] == x[w - d.len()]);
                assert(x.contains(y));
                crate::aggregate::lemma_exec_results_matched(execs, ql, y);
            }
        } else {
            assert(cands[w] == c[w - (d.len() + x.len())]);
            assert(c.contains(y));
            crate::aggregate::lemma_curated_results_matched(curated_default(), ql, y);
        }
    }
}

} // verus!
