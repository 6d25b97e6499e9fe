//! The clipboard side of the launcher: the bounded most-recent-first
//! history that an external poller fills, the sensitivity heuristic the
//! poller applies to captured text, and the lookup aggregator that serves
//! a `clip:` intent. The history is read here and appended to by the
//! poller; the host serializes both behind one lock.

use vstd::prelude::*;

verus! {

use crate::intent::has_digit;
use crate::results::FileResult;
use crate::results::ResultModel;
use crate::results::SCORE_INTENT;
use crate::results::models;
use crate::text::contains_sub;
use crate::text::contains_sub_str;
use crate::text::is_digit;
use crate::text::lower;
use crate::text::to_lower_str;

/// Most entries the history retains; the oldest is evicted on overflow.
pub const CLIP_HISTORY_CAP: usize = 30;

/// Character budget of a clipboard preview label.
pub const CLIP_PREVIEW_LEN: usize = 45;

/// Length below which a digit plus a symbol makes text look like a secret.
pub const SENSITIVE_LEN_LIMIT: usize = 32;

/// One captured clipboard string; `is_sensitive` is the poller's verdict
/// from `looks_sensitive`, kept with the entry. Capture order is implicit:
/// the history sequence is most-recent-first.
pub struct ClipboardEntry {
    pub content: String,
    pub is_sensitive: bool,
}

/// The mathematical picture of a `ClipboardEntry`.
pub struct ClipModel {
    pub content: Seq<char>,
    pub is_sensitive: bool,
}

impl View for ClipboardEntry {
    type V = ClipModel;

    open spec fn view(&self) -> ClipModel {
        ClipModel { content: self.content@, is_sensitive: self.is_sensitive }
    }
}

/// The models of a history, element by element.
pub open spec fn clip_models(s: Seq<ClipboardEntry>) -> Seq<ClipModel> {
    s.map_values(|e: ClipboardEntry| e@)
}

// ---------------------------------------------------------------------------
// Sensitivity heuristic
// ---------------------------------------------------------------------------

/// Not a letter and not a digit, over the ASCII range.
pub open spec fn is_symbol(c: char) -> bool {
    !(('a' <= c && c <= 'z') || ('A' <= c && c <= 'Z') || is_digit(c))
}

pub open spec fn has_symbol(s: Seq<char>) -> bool {
    exists|i: int| 0 <= i < s.len() && is_symbol(s[i])
}

/// Whether the text starts with one of the well-known secret-token
/// prefixes the heuristic recognizes.
pub open spec fn has_secret_prefix(s: Seq<char>) -> bool {
    "sk-"@.is_prefix_of(s) || "ghp_"@.is_prefix_of(s) || "AKIA"@.is_prefix_of(s)
        || "xoxb-"@.is_prefix_of(s)
}

/// The sensitivity heuristic: a known secret-token prefix, or short text
/// that mixes a digit with a non-alphanumeric character. It is a
/// heuristic only — false positives and false negatives are expected and
/// acceptable; it decides masking, nothing more.
pub open spec fn sensitive_spec(s: Seq<char>) -> bool {
    has_secret_prefix(s) || (s.len() < SENSITIVE_LEN_LIMIT && has_digit(s) && has_symbol(s))
}

proof fn lemma_has_symbol_push(s: Seq<char>, c: char)
    ensures
        has_symbol(s.push(c)) == (has_symbol(s) || is_symbol(c)),
{
    if has_symbol(s) {
        let w = choose|j: int| 0 <= j < s.len() && is_symbol(s[j]);
        assert(s.push(c)[w] == s[w]);
    }
    if is_symbol(c) {
        assert(s.push(c)[s.len() as int] == c);
    }
    if has_symbol(s.push(c)) && !is_symbol(c) {
        let w = choose|j: int| 0 <= j < s.push(c).len() && is_symbol(s.push(c)[j]);
        assert(w < s.len());
        assert(s[w] == s.push(c)[w]);
    }
}

proof fn lemma_has_digit_push_clip(s: Seq<char>, c: char)
    ensures
        has_digit(s.push(c)) == (has_digit(s) || is_digit(c)),
{
    if has_digit(s) {
        let w = choose|j: int| 0 <= j < s.len() && is_digit(s[j]);
        assert(s.push(c)[w] == s[w]);
    }
    if is_digit(c) {
        assert(s.push(c)[s.len() as int] == c);
    }
    if has_digit(s.push(c)) && !is_digit(c) {
        let w = choose|j: int| 0 <= j < s.push(c).len() && is_digit(s.push(c)[j]);
        assert(w < s.len());
        assert(s[w] == s.push(c)[w]);
    }
}

/// The poller's test for captured text, exactly `sensitive_spec`.
pub fn looks_sensitive(s: &str) -> (r: bool)
    ensures
        r == sensitive_spec(s@),
{
    if crate::text::starts_with_str(s, "sk-") || crate::text::starts_with_str(s, "ghp_")
        || crate::text::starts_with_str(s, "AKIA") || crate::text::starts_with_str(s, "xoxb-") {
        return true;
    }
    let n = s.unicode_len();
    if n >= SENSITIVE_LEN_LIMIT {
        return false;
    }
    let mut saw_digit = false;
    let mut saw_symbol = false;
    let mut i: usize = 0;
    while i < n
        invariant
            0 <= i <= n,
            n == s@.len(),
            saw_digit == has_digit(s@.take(i as int)),
            saw_symbol == has_symbol(s@.take(i as int)),
        decreases n - i,
    {
        let c = s.get_char(i);
        let d = crate::text::is_digit_char(c);
        let y = !(('a' <= c && c <= 'z') || ('A' <= c && c <= 'Z') || d);
        proof {
            assert(s@.take(i + 1) =~= s@.take(i as int).push(s@[i as int]));
            lemma_has_digit_push_clip(s@.take(i as int), s@[i as int]);
            lemma_has_symbol_push(s@.take(i as int), s@[i as int]);
        }
        saw_digit = saw_digit || d;
        saw_symbol = saw_symbol || y;
        i = i + 1;
    }
    proof {
        assert(s@.take(n as int) =~= s@);
    }
    saw_digit && saw_symbol
}

// ---------------------------------------------------------------------------
// The bounded history
// ---------------------------------------------------------------------------

/// The history with every entry of exactly the given content removed.
pub open spec fn without_content(h: Seq<ClipModel>, c: Seq<char>) -> Seq<ClipModel>
    decreases h.len(),
{
    if h.len() == 0 {
        Seq::empty()
    } else if h[0].content == c {
        without_content(h.drop_first(), c)
    } else {
        seq![h[0]] + without_content(h.drop_first(), c)
    }
}

pub proof fn lemma_without_content_push(h: Seq<ClipModel>, x: ClipModel, c: Seq<char>)
    ensures
        without_content(h.push(x), c) == if x.content == c {
            without_content(h, c)
        } else {
            without_content(h, c) + seq![x]
        },
    decreases h.len(),
{
    let e = Seq::<ClipModel>::empty();
    assert(without_content(e, c) == e);
    if h.len() == 0 {
        assert(h.push(x).len() == 1);
        assert(h.push(x)[0] == x);
        assert(h.push(x).drop_first() =~= e);
        assert(h =~= e);
        if x.content == c {
            assert(without_content(h.push(x), c) == without_content(e, c));
        } else {
            assert(without_content(h.push(x), c) == seq![x] + without_content(e, c));
            assert(seq![x] + e =~= e + seq![x]);
        }
    } else {
        assert(h.push(x)[0] == h[0]);
        assert(h.push(x).drop_first() =~= h.drop_first().push(x));
        lemma_without_content_push(h.drop_first(), x, c);
        if h[0].content == c {
            assert(without_content(h.push(x), c) == without_content(h.drop_first().push(x), c));
            assert(without_content(h, c) == without_content(h.drop_first(), c));
        } else {
            assert(without_content(h.push(x), c) == seq![h[0]] + without_content(
                h.drop_first().push(x),
                c,
            ));
            assert(without_content(h, c) == seq![h[0]] + without_content(h.drop_first(), c));
            if x.content != c {
                assert(seq![h[0]] + (without_content(h.drop_first(), c) + seq![x]) =~= (seq![h[0]]
                    + without_content(h.drop_first(), c)) + seq![x]);
            }
        }
    }
}

/// What one poller append leaves of the history: the new entry in front,
/// any entry with exactly the same content dropped, the rest in order,
/// and the whole cut to the retention cap (evicting the oldest).
pub open spec fn pushed(h: Seq<ClipModel>, e: ClipModel) -> Seq<ClipModel> {
    crate::results::trunc(seq![e] + without_content(h, e.content), CLIP_HISTORY_CAP as int)
}

/// The bounded most-recent-first clipboard history.
pub struct ClipboardHistory {
    pub entries: Vec<ClipboardEntry>,
}

impl View for ClipboardHistory {
    type V = Seq<ClipModel>;

    open spec fn view(&self) -> Seq<ClipModel> {
        clip_models(self.entries@)
    }
}

impl ClipboardHistory {
    pub fn new() -> (r: Self)
        ensures
            r@ == Seq::<ClipModel>::empty(),
    {
        let r = ClipboardHistory { entries: Vec::new() };
        proof {
            assert(r@ =~= Seq::<ClipModel>::empty());
        }
        r
    }

    /// One poller append, with exact-content deduplication and eviction.
    pub fn push_front(&mut self, content: String, is_sensitive: bool)
        ensures
            final(self)@ == pushed(old(self)@, ClipModel { content: content@, is_sensitive }),
    {
        let ghost em = ClipModel { content: content@, is_sensitive };
        let n = self.entries.len();
        let mut out: Vec<ClipboardEntry> = Vec::new();
        out.push(ClipboardEntry { content, is_sensitive });
        proof {
            assert(clip_models(self.entries@.take(0)) =~= Seq::<ClipModel>::empty());
            assert(clip_models(out@) =~= seq![em] + without_content(
                clip_models(self.entries@.take(0)),
                em.content,
            ));
        }
        let mut i: usize = 0;
        while i < n
            invariant
                0 <= i <= n,
                n == self.entries@.len(),
                out@.len() >= 1,
                out@[0].content@ == em.content,
                clip_models(out@) == seq![em] + without_content(
                    clip_models(self.entries@.take(i as int)),
                    em.content,
                ),
            decreases n - i,
        {
            let keep = !(self.entries[i].content == out[0].content);
            proof {
                let m = self.entries@[i as int]@;
                let pre = clip_models(self.entries@.take(i as int));
                assert(clip_models(self.entries@.take(i + 1)) =~= pre.push(m));
                lemma_without_content_push(pre, m, em.content);
            }
            if keep {
                let e = self.entries[i].clone_entry();
                let ghost prev = out@;
                out.push(e);
                proof {
                    let m = self.entries@[i as int]@;
                    let pre = clip_models(self.entries@.take(i as int));
                    let wo = without_content(pre, em.content);
                    assert(m.content != em.content);
                    assert(without_content(clip_models(self.entries@.take(i + 1)), em.content)
                        == wo + seq![m]);
                    assert(out@.len() == prev.len() + 1);
                    assert(out@[prev.len() as int]@ == m);
                    assert(clip_models(out@) =~~= clip_models(prev).push(m));
                    assert(clip_models(prev) == seq![em] + wo);
                    assert((seq![em] + wo).push(m) =~~= seq![em] + (wo + seq![m]));
                    assert(clip_models(out@) =~~= seq![em] + without_content(
                        clip_models(self.entries@.take(i + 1)),
                        em.content,
                    ));
                }
            }
            i = i + 1;
        }
        proof {
            assert(self.entries@.take(n as int) =~= self.entries@);
        }
        out.truncate(CLIP_HISTORY_CAP);
        proof {
            let full = seq![em] + without_content(clip_models(self.entries@), em.content);
            if full.len() <= CLIP_HISTORY_CAP as int {
                assert(clip_models(out@) =~~= full);
            } else {
                assert(clip_models(out@) =~~= full.take(CLIP_HISTORY_CAP as int));
            }
        }
        self.entries = out;
    }
}

impl ClipboardEntry {
    /// A field-for-field copy of the entry.
    pub fn clone_entry(&self) -> (r: Self)
        ensures
            r@ == self@,
    {
        ClipboardEntry { content: self.content.clone(), is_sensitive: self.is_sensitive }
    }
}

// ---------------------------------------------------------------------------
// The lookup aggregator
// ---------------------------------------------------------------------------

/// The fixed label shown in place of a sensitive entry's content.
pub open spec fn masked_label() -> Seq<char> {
    "[sensitive]"@
}

/// The preview label of ordinary content: the text itself, or its first
/// characters with an ellipsis marker when it is over budget.
pub open spec fn preview(c: Seq<char>) -> Seq<char> {
    if c.len() <= CLIP_PREVIEW_LEN as int {
        c
    } else {
        c.take(CLIP_PREVIEW_LEN as int) + "..."@
    }
}

/// Whether a history entry survives the lookup's filter: its content
/// contains the term, case-insensitively.
pub open spec fn clip_hit(m: ClipModel, term: Seq<char>) -> bool {
    contains_sub(lower(m.content), lower(term))
}

/// What one history entry becomes in the result list.
pub open spec fn clip_result(m: ClipModel) -> ResultModel {
    ResultModel {
        name: if m.is_sensitive {
            masked_label()
        } else {
            preview(m.content)
        },
        path: "clip:"@ + m.content,
        is_app: true,
        score: SCORE_INTENT as int,
    }
}

/// A clipboard lookup: the history most-recent-first, kept when the
/// content contains the term case-insensitively, each entry rendered by
/// `clip_result`. Sensitive entries are masked whatever the term.
pub open spec fn clip_results(h: Seq<ClipModel>, term: Seq<char>) -> Seq<ResultModel>
    decreases h.len(),
{
    if h.len() == 0 {
        Seq::empty()
    } else if clip_hit(h[0], term) {
        seq![clip_result(h[0])] + clip_results(h.drop_first(), term)
    } else {
        clip_results(h.drop_first(), term)
    }
}

pub proof fn lemma_clip_results_push(h: Seq<ClipModel>, x: ClipModel, term: Seq<char>)
    ensures
        clip_results(h.push(x), term) == if clip_hit(x, term) {
            clip_results(h, term).push(clip_result(x))
        } else {
            clip_results(h, term)
        },
    decreases h.len(),
{
    let e = Seq::<ClipModel>::empty();
    assert(clip_results(e, term) == Seq::<ResultModel>::empty());
    if h.len() == 0 {
        assert(h.push(x).len() == 1);
        assert(h.push(x)[0] == x);
        assert(h.push(x).drop_first() =~= e);
        assert(h =~= e);
        if clip_hit(x, term) {
            assert(clip_results(h.push(x), term) == seq![clip_result(x)] + clip_results(e, term));
            assert(seq![clip_result(x)] + Seq::<ResultModel>::empty()
                =~= Seq::<ResultModel>::empty().push(clip_result(x)));
        } else {
            assert(clip_results(h.push(x), term) == clip_results(e, term));
        }
    } else {
        assert(h.push(x)[0] == h[0]);
        assert(h.push(x).drop_first() =~= h.drop_first().push(x));
        lemma_clip_results_push(h.drop_first(), x, term);
        if clip_hit(h[0], term) {
            assert(clip_results(h.push(x), term) == seq![clip_result(h[0])] + clip_results(
                h.drop_first().push(x),
                term,
            ));
            assert(clip_results(h, term) == seq![clip_result(h[0])] + clip_results(
                h.drop_first(),
                term,
            ));
            if clip_hit(x, term) {
                assert(seq![clip_result(h[0])] + clip_results(h.drop_first(), term).push(
                    clip_result(x),
                ) =~= (seq![clip_result(h[0])] + clip_results(h.drop_first(), term)).push(
                    clip_result(x),
                ));
            }
        } else {
            assert(clip_results(h.push(x), term) == clip_results(h.drop_first().push(x), term));
            assert(clip_results(h, term) == clip_results(h.drop_first(), term));
        }
    }
}

/// Whether `y` is the rendering of some history entry that passes the
/// lookup's filter for this term.
pub open spec fn from_history(h: Seq<ClipModel>, term: Seq<char>, y: ResultModel) -> bool {
    exists|j: int| 0 <= j < h.len() && clip_hit(#[trigger] h[j], term) && y == clip_result(h[j])
}

/// Law: a clipboard lookup returns only (renderings of) history entries
/// whose content contains the term case-insensitively, in history order;
/// and a sensitive entry is always rendered as the fixed masked label,
/// whatever the term.
pub proof fn lemma_clip_lookup_filtered(h: Seq<ClipModel>, term: Seq<char>)
    ensures
        forall|k: int|
            0 <= k < clip_results(h, term).len() ==> from_history(
                h,
                term,
                #[trigger] clip_results(h, term)[k],
            ),
        forall|j: int|
            0 <= j < h.len() && h[j].is_sensitive ==> (#[trigger] clip_result(h[j])).name
                == masked_label(),
    decreases h.len(),
{
    if h.len() == 0 {
    } else {
        lemma_clip_lookup_filtered(h.drop_first(), term);
        let rest = clip_results(h.drop_first(), term);
        assert forall|k: int| 0 <= k < clip_results(h, term).len() implies from_history(
            h,
            term,
            #[trigger] clip_results(h, term)[k],
        ) by {
            if clip_hit(h[0], term) {
                if k == 0 {
                    assert(clip_results(h, term)[0] == clip_result(h[0]));
                    assert(clip_hit(h[0], term) && clip_results(h, term)[k] == clip_result(h[0]));
                } else {
                    assert(clip_results(h, term)[k] == rest[k - 1]);
                    assert(from_history(h.drop_first(), term, rest[k - 1]));
                    let j = choose|j: int|
                        0 <= j < h.drop_first().len() && clip_hit(h.drop_first()[j], term)
                            && rest[k - 1] == clip_result(h.drop_first()[j]);
                    assert(h.drop_first()[j] == h[j + 1]);
                    assert(clip_hit(h[j + 1], term) && clip_results(h, term)[k] == clip_result(
                        h[j + 1],
                    ));
                }
            } else {
                assert(clip_results(h, term)[k] == rest[k]);
                assert(from_history(h.drop_first(), term, rest[k]));
                let j = choose|j: int|
                    0 <= j < h.drop_first().len() && clip_hit(h.drop_first()[j], term) && rest[k]
                        == clip_result(h.drop_first()[j]);
                assert(h.drop_first()[j] == h[j + 1]);
                assert(clip_hit(h[j + 1], term) && clip_results(h, term)[k] == clip_result(
                    h[j + 1],
                ));
            }
        }
    }
}

fn preview_str(c: &str) -> (r: String)
    ensures
        r@ == preview(c@),
{
    let n = c.unicode_len();
    if n <= CLIP_PREVIEW_LEN {
        String::from_str(c)
    } else {
        let head = c.substring_char(0, CLIP_PREVIEW_LEN);
        proof {
            assert(head@ =~= c@.take(CLIP_PREVIEW_LEN as int));
        }
        String::from_str(head).concat("...")
    }
}

/// Serves a `clip:` intent: filters the history by the term and renders
/// the labels, masking sensitive entries.
pub fn lookup(history: &Vec<ClipboardEntry>, term: &str) -> (r: Vec<FileResult>)
    ensures
        models(r@) == clip_results(clip_models(history@), term@),
{
    let term_l = to_lower_str(term);
    let n = history.len();
    let mut out: Vec<FileResult> = Vec::new();
    proof {
        assert(clip_models(history@.take(0)) =~= Seq::<ClipModel>::empty());
        assert(models(out@) =~= clip_results(clip_models(history@.take(0)), term@));
    }
    let mut i: usize = 0;
    while i < n
        invariant
            0 <= i <= n,
            n == history@.len(),
            term_l@ == lower(term@),
            models(out@) == clip_results(clip_models(history@.take(i as int)), term@),
        decreases n - i,
    {
        let e = &history[i];
        let content_l = to_lower_str(e.content.as_str());
        let hit = contains_sub_str(content_l.as_str(), term_l.as_str());
        proof {
            let m = history@[i as int]@;
            let pre = clip_models(history@.take(i as int));
            assert(clip_models(history@.take(i + 1)) =~= pre.push(m));
            lemma_clip_results_push(pre, m, term@);
            assert(hit == clip_hit(m, term@));
        }
        if hit {
            let name = if e.is_sensitive {
                String::from_str("[sensitive]")
            } else {
                preview_str(e.content.as_str())
            };
            let path = String::from_str("clip:").concat(e.content.as_str());
            out.push(FileResult { name, path, is_app: true, score: SCORE_INTENT });
            proof {
                assert(models(out@) =~~= clip_results(clip_models(history@.take(i + 1)), term@));
            }
        }
        i = i + 1;
    }
    proof {
        assert(history@.take(n as int) =~= history@);
    }
    out
}

} // verus!
