//! Merging the aggregators' outputs into one ranked list: deduplication
//! by dispatch token, a stable sort descending by score (ties keep their
//! insertion order, so behaviour stays deterministic), and truncation.

use vstd::prelude::*;

verus! {

use crate::results::FileResult;
use crate::results::ResultModel;
use crate::results::models;

/// Whether some element of `s` carries exactly this dispatch token.
pub open spec fn has_path(s: Seq<ResultModel>, p: Seq<char>) -> bool {
    exists|j: int| 0 <= j < s.len() && s[j].path == p
}

/// The sequence with every later repeat of a dispatch token dropped: the
/// first occurrence wins.
pub open spec fn dedup_by_path(s: Seq<ResultModel>) -> Seq<ResultModel>
    decreases s.len(),
{
    if s.len() == 0 {
        Seq::empty()
    } else {
        let pre = dedup_by_path(s.drop_last());
        if has_path(s.drop_last(), s.last().path) {
            pre
        } else {
            pre.push(s.last())
        }
    }
}

/// Deduplication neither invents nor loses dispatch tokens.
pub proof fn lemma_dedup_has_path(s: Seq<ResultModel>, p: Seq<char>)
    ensures
        has_path(dedup_by_path(s), p) == has_path(s, p),
    decreases s.len(),
{
    if s.len() == 0 {
    } else {
        let d = s.drop_last();
        lemma_dedup_has_path(d, p);
        let pre = dedup_by_path(d);
        if has_path(d, s.last().path) {
            if has_path(s, p) && !has_path(d, p) {
                let w = choose|j: int| 0 <= j < s.len() && s[j].path == p;
                if w < s.len() - 1 {
                    assert(0 <= w < d.len() && d[w].path == p);
                }
                assert(s.last().path == p);
            }
            if has_path(d, p) {
                let w = choose|j: int| 0 <= j < d.len() && d[j].path == p;
                assert(s[w].path == p);
            }
        } else {
            if has_path(pre.push(s.last()), p) {
                let w = choose|j: int| 0 <= j < pre.push(s.last()).len() && pre.push(
                    s.last(),
                )[j].path == p;
                if w < pre.len() {
                    assert(pre[w].path == p);
                    let v = choose|j: int| 0 <= j < d.len() && d[j].path == p;
                    assert(s[v].path == p);
                } else {
                    assert(s[s.len() - 1].path == p);
                }
            }
            if has_path(s, p) {
                let w = choose|j: int| 0 <= j < s.len() && s[j].path == p;
                if w < s.len() - 1 {
                    assert(d[w].path == p);
                    let v = choose|j: int| 0 <= j < pre.len() && pre[j].path == p;
                    assert(pre.push(s.last())[v].path == p);
                } else {
                    assert(pre.push(s.last()).last().path == p);
                }
            }
        }
    }
}

/// Every survivor of deduplication was among the candidates.
pub proof fn lemma_dedup_contains(s: Seq<ResultModel>, y: ResultModel)
    ensures
        dedup_by_path(s).contains(y) ==> s.contains(y),
    decreases s.len(),
{
    if s.len() == 0 {
    } else {
        let d = s.drop_last();
        lemma_dedup_contains(d, y);
        let pre = dedup_by_path(d);
        if dedup_by_path(s).contains(y) {
            if has_path(d, s.last().path) {
                assert(pre.contains(y));
                let w = choose|j: int| 0 <= j < d.len() && d[j] == y;
                assert(s[w] == y);
            } else {
                let w = choose|j: int| 0 <= j < pre.push(s.last()).len() && pre.push(
                    s.last(),
                )[j] == y;
                if w < pre.len() {
                    assert(pre.contains(y));
                    let v = choose|j: int| 0 <= j < d.len() && d[j] == y;
                    assert(s[v] == y);
                } else {
                    assert(s[s.len() - 1] == y);
                }
            }
        }
    }
}

/// Whether some result of `v` carries exactly this dispatch token.
fn contains_path(v: &Vec<FileResult>, p: &String) -> (r: bool)
    ensures
        r == has_path(models(v@), p@),
{
    let n = v.len();
    let mut i: usize = 0;
    while i < n
        invariant
            0 <= i <= n,
            n == v@.len(),
            forall|k: int| 0 <= k < i ==> models(v@)[k].path != p@,
        decreases n - i,
    {
        if v[i].path == *p {
            proof {
                assert(models(v@)[i as int].path == p@);
            }
            return true;
        }
        i = i + 1;
    }
    false
}

/// Keeps the first result for each dispatch token, in order.
pub fn dedup_results(input: &Vec<FileResult>) -> (r: Vec<FileResult>)
    ensures
        models(r@) == dedup_by_path(models(input@)),
{
    let ghost ms = models(input@);
    let n = input.len();
    let mut out: Vec<FileResult> = Vec::new();
    proof {
        assert(models(input@.take(0)) =~= Seq::<ResultModel>::empty());
        assert(models(out@) =~= dedup_by_path(models(input@.take(0))));
    }
    let mut i: usize = 0;
    while i < n
        invariant
            0 <= i <= n,
            n == input@.len(),
            models(out@) == dedup_by_path(models(input@.take(i as int))),
        decreases n - i,
    {
        let e = &input[i];
        proof {
            let t1 = models(input@.take(i + 1));
            assert(t1.drop_last() =~= models(input@.take(i as int)));
            assert(t1.last() == input@[i as int]@);
            lemma_dedup_has_path(models(input@.take(i as int)), input@[i as int]@.path);
        }
        let dup = contains_path(&out, &e.path);
        if !dup {
            out.push(e.clone_result());
            proof {
                assert(models(out@) =~~= dedup_by_path(models(input@.take(i + 1))));
            }
        }
        i = i + 1;
    }
    proof {
        assert(input@.take(n as int) =~= input@);
    }
    out
}

// ---------------------------------------------------------------------------
// Stable sort, descending by score
// ---------------------------------------------------------------------------

/// Descending by score: what the ranked list must satisfy.
pub open spec fn sorted_desc(s: Seq<ResultModel>) -> bool {
    forall|i: int, j: int| 0 <= i < j < s.len() ==> s[i].score >= s[j].score
}

/// Insertion after every element scoring at least as much: a later
/// arrival never overtakes an equal score, which makes the sort stable.
pub open spec fn insert_desc(x: ResultModel, s: Seq<ResultModel>) -> Seq<ResultModel>
    decreases s.len(),
{
    if s.len() == 0 {
        seq![x]
    } else if s[0].score >= x.score {
        seq![s[0]] + insert_desc(x, s.drop_first())
    } else {
        seq![x] + s
    }
}

/// The stable descending sort: elements inserted left to right.
pub open spec fn sort_desc(s: Seq<ResultModel>) -> Seq<ResultModel>
    decreases s.len(),
{
    if s.len() == 0 {
        Seq::empty()
    } else {
        insert_desc(s.last(), sort_desc(s.drop_last()))
    }
}

pub proof fn lemma_insert_desc_contains(x: ResultModel, s: Seq<ResultModel>, y: ResultModel)
    ensures
        insert_desc(x, s).contains(y) == (y == x || s.contains(y)),
        insert_desc(x, s).len() == s.len() + 1,
    decreases s.len(),
{
    if s.len() == 0 {
        assert(insert_desc(x, s)[0] == x);
    } else if s[0].score >= x.score {
        lemma_insert_desc_contains(x, s.drop_first(), y);
        let r = seq![s[0]] + insert_desc(x, s.drop_first());
        if r.contains(y) {
            let w = choose|j: int| 0 <= j < r.len() && r[j] == y;
            if w == 0 {
                assert(s[0] == y);
            } else {
                assert(insert_desc(x, s.drop_first()).contains(y));
                if y != x {
                    let v = choose|j: int|
                        0 <= j < s.drop_first().len() && s.drop_first()[j] == y;
                    assert(s[v + 1] == y);
                }
            }
        }
        if y == x {
            assert(insert_desc(x, s.drop_first()).contains(y));
            let v = choose|j: int|
                0 <= j < insert_desc(x, s.drop_first()).len() && insert_desc(
                    x,
                    s.drop_first(),
                )[j] == y;
            assert(r[v + 1] == y);
        }
        if s.contains(y) {
            let w = choose|j: int| 0 <= j < s.len() && s[j] == y;
            if w == 0 {
                assert(r[0] == y);
            } else {
                assert(s.drop_first()[w - 1] == y);
                assert(insert_desc(x, s.drop_first()).contains(y));
                let v = choose|j: int|
                    0 <= j < insert_desc(x, s.drop_first()).len() && insert_desc(
                        x,
                        s.drop_first(),
                    )[j] == y;
                assert(r[v + 1] == y);
            }
        }
    } else {
        let r = seq![x] + s;
        if r.contains(y) {
            let w = choose|j: int| 0 <= j < r.len() && r[j] == y;
            if w == 0 {
            } else {
                assert(s[w - 1] == y);
            }
        }
        if y == x {
            assert(r[0] == y);
        }
        if s.contains(y) {
            let w = choose|j: int| 0 <= j < s.len() && s[j] == y;
            assert(r[w + 1] == y);
        }
    }
}

pub proof fn lemma_insert_desc_sorted(x: ResultModel, s: Seq<ResultModel>)
    requires
        sorted_desc(s),
    ensures
        sorted_desc(insert_desc(x, s)),
    decreases s.len(),
{
    if s.len() == 0 {
    } else if s[0].score >= x.score {
        assert(sorted_desc(s.drop_first())) by {
            assert forall|i: int, j: int|
                0 <= i < j < s.drop_first().len() implies s.drop_first()[i].score
                >= s.drop_first()[j].score by {
                assert(s.drop_first()[i] == s[i + 1]);
                assert(s.drop_first()[j] == s[j + 1]);
            }
        }
        lemma_insert_desc_sorted(x, s.drop_first());
        let t = insert_desc(x, s.drop_first());
        let r = seq![s[0]] + t;
        assert forall|i: int, j: int| 0 <= i < j < r.len() implies r[i].score >= r[j].score by {
            if i == 0 {
                assert(r[j] == t[j - 1]);
                assert(t.contains(t[j - 1]));
                lemma_insert_desc_contains(x, s.drop_first(), t[j - 1]);
                if t[j - 1] == x {
                } else {
                    assert(s.drop_first().contains(t[j - 1]));
                    let w = choose|k: int|
                        0 <= k < s.drop_first().len() && s.drop_first()[k] == t[j - 1];
                    assert(s[w + 1] == t[j - 1]);
                }
            } else {
                assert(r[i] == t[i - 1]);
                assert(r[j] == t[j - 1]);
            }
        }
    } else {
        let r = seq![x] + s;
        assert forall|i: int, j: int| 0 <= i < j < r.len() implies r[i].score >= r[j].score by {
            if i == 0 {
                assert(r[j] == s[j - 1]);
                if j - 1 > 0 {
                    assert(s[0].score >= s[j - 1].score);
                }
            } else {
                assert(r[i] == s[i - 1]);
                assert(r[j] == s[j - 1]);
            }
        }
    }
}

/// The sort returns exactly the input's elements, in descending order.
pub proof fn lemma_sort_desc_props(s: Seq<ResultModel>)
    ensures
        sorted_desc(sort_desc(s)),
        sort_desc(s).len() == s.len(),
        forall|y: ResultModel| #[trigger] sort_desc(s).contains(y) == s.contains(y),
    decreases s.len(),
{
    if s.len() == 0 {
    } else {
        let d = s.drop_last();
        lemma_sort_desc_props(d);
        lemma_insert_desc_sorted(s.last(), sort_desc(d));
        assert forall|y: ResultModel| #[trigger]
            sort_desc(s).contains(y) == s.contains(y) by {
            lemma_insert_desc_contains(s.last(), sort_desc(d), y);
            if sort_desc(s).contains(y) {
                if y == s.last() {
                    assert(s[s.len() - 1] == y);
                } else {
                    assert(d.contains(y));
                    let w = choose|j: int| 0 <= j < d.len() && d[j] == y;
                    assert(s[w] == y);
                }
            }
            if s.contains(y) {
                let w = choose|j: int| 0 <= j < s.len() && s[j] == y;
                if w == s.len() - 1 {
                } else {
                    assert(d[w] == y);
                }
            }
        }
        lemma_insert_desc_contains(s.last(), sort_desc(d), s.last());
    }
}

/// Where a scan stopped is exactly where `insert_desc` puts the element.
proof fn lemma_insert_desc_at(x: ResultModel, s: Seq<ResultModel>, j: int)
    requires
        0 <= j <= s.len(),
        forall|k: int| 0 <= k < j ==> s[k].score >= x.score,
        j < s.len() ==> s[j].score < x.score,
    ensures
        insert_desc(x, s) == s.take(j) + seq![x] + s.skip(j),
    decreases j,
{
    if j == 0 {
        if s.len() == 0 {
            assert(insert_desc(x, s) =~= s.take(0) + seq![x] + s.skip(0));
        } else {
            assert(s[0].score < x.score);
            assert(insert_desc(x, s) =~= s.take(0) + seq![x] + s.skip(0));
        }
    } else {
        assert(s[0].score >= x.score);
        assert forall|k: int| 0 <= k < j - 1 implies s.drop_first()[k].score >= x.score by {
            assert(s.drop_first()[k] == s[k + 1]);
        }
        if j - 1 < s.drop_first().len() {
            assert(s.drop_first()[j - 1] == s[j]);
        }
        lemma_insert_desc_at(x, s.drop_first(), j - 1);
        assert(seq![s[0]] + (s.drop_first().take(j - 1) + seq![x] + s.drop_first().skip(j - 1))
            =~= s.take(j) + seq![x] + s.skip(j));
    }
}

/// The stable descending sort of the results.
pub fn sort_results(input: &Vec<FileResult>) -> (r: Vec<FileResult>)
    ensures
        models(r@) == sort_desc(models(input@)),
{
    let n = input.len();
    let mut out: Vec<FileResult> = Vec::new();
    proof {
        assert(models(input@.take(0)) =~= Seq::<ResultModel>::empty());
        assert(models(out@) =~= sort_desc(models(input@.take(0))));
    }
    let mut i: usize = 0;
    while i < n
        invariant
            0 <= i <= n,
            n == input@.len(),
            models(out@) == sort_desc(models(input@.take(i as int))),
        decreases n - i,
    {
        let x = input[i].clone_result();
        proof {
            lemma_sort_desc_props(models(input@.take(i as int)));
        }
        let m = out.len();
        let mut j: usize = 0;
        while j < m && out[j].score >= x.score
            invariant
                0 <= j <= m,
                m == out@.len(),
                forall|k: int| 0 <= k < j ==> models(out@)[k].score >= x@.score,
            decreases m - j,
        {
            proof {
                assert(models(out@)[j as int].score == out@[j as int]@.score);
            }
            j = j + 1;
        }
        proof {
            let ms = models(out@);
            assert(j < m ==> ms[j as int].score < x@.score);
            lemma_insert_desc_at(x@, ms, j as int);
        }
        let ghost prev = out@;
        out.insert(j, x);
        proof {
            let t1 = models(input@.take(i + 1));
            assert(t1.drop_last() =~= models(input@.take(i as int)));
            assert(t1.last() == input@[i as int]@);
            assert(models(out@) =~~= models(prev).take(j as int) + seq![input@[i as int]@]
                + models(prev).skip(j as int));
            assert(models(out@) =~~= sort_desc(models(input@.take(i + 1))));
        }
        i = i + 1;
    }
    proof {
        assert(input@.take(n as int) =~= input@);
    }
    out
}

} // verus!
