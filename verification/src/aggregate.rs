//! The fan-out sources of a plain search: directory entries fed by the
//! host's file enumerator, the installed-executable index, and the fixed
//! curated registry of common utilities. Each aggregator turns its
//! snapshot into scored results; the ranker merges them.

use vstd::prelude::*;

verus! {

use crate::bindings::fuzzy_score;
use crate::bindings::fuzzy_score_of;
use crate::results::BONUS_EXECUTABLE;
use crate::results::BONUS_LAUNCHABLE_EXT;
use crate::results::DIR_RESULT_CAP;
use crate::results::FileResult;
use crate::results::ResultModel;
use crate::results::models;
use crate::text::ends_with_str;
use crate::text::lower;
use crate::text::to_lower_str;

/// One file the host's enumerator yielded: its bare name, its full path,
/// and the enumerator's own hint that it is a launchable application
/// (platform-specific, e.g. an `.exe` under an installation root).
pub struct FileEntry {
    pub name: String,
    pub path: String,
    pub is_executable_hint: bool,
}

/// The mathematical picture of a `FileEntry`.
pub struct EntryModel {
    pub name: Seq<char>,
    pub path: Seq<char>,
    pub is_executable_hint: bool,
}

impl View for FileEntry {
    type V = EntryModel;

    open spec fn view(&self) -> EntryModel {
        EntryModel {
            name: self.name@,
            path: self.path@,
            is_executable_hint: self.is_executable_hint,
        }
    }
}

/// The models of a sequence of entries, element by element.
pub open spec fn entry_models(s: Seq<FileEntry>) -> Seq<EntryModel> {
    s.map_values(|e: FileEntry| e@)
}

/// A score plus a bonus, saturating at the top of `i64` so the sum is
/// always representable.
pub open spec fn bump(s: i64, b: int) -> int {
    if s + b > i64::MAX {
        i64::MAX as int
    } else {
        s + b
    }
}

fn bump_score(s: i64, b: i64) -> (r: i64)
    requires
        b >= 0,
    ensures
        r as int == bump(s, b as int),
{
    if s <= i64::MAX - b {
        s + b
    } else {
        i64::MAX
    }
}

/// A recognized launchable extension on an already-lowercased file name.
/// At least one character must precede the dot: a bare dotfile named
/// exactly like an extension has no extension at all.
pub open spec fn has_launch_ext(lname: Seq<char>) -> bool {
    (lname.len() > ".exe"@.len() && ".exe"@.is_suffix_of(lname)) || (lname.len() > ".lnk"@.len()
        && ".lnk"@.is_suffix_of(lname)) || (lname.len() > ".app"@.len() && ".app"@.is_suffix_of(
        lname,
    ))
}

fn launch_ext(lname: &str) -> (r: bool)
    ensures
        r == has_launch_ext(lname@),
{
    let n = lname.unicode_len();
    (ends_with_str(lname, ".exe") && n > ".exe".unicode_len()) || (ends_with_str(lname, ".lnk")
        && n > ".lnk".unicode_len()) || (ends_with_str(lname, ".app") && n
        > ".app".unicode_len())
}

// ---------------------------------------------------------------------------
// Directory search
// ---------------------------------------------------------------------------

/// What one enumerated file becomes: `None` when its name does not fuzzy-
/// match the query, else a plain file result whose score is the fuzzy
/// score plus the launchable-extension bonus.
pub open spec fn dir_score(m: EntryModel, ql: Seq<char>) -> Option<ResultModel> {
    match fuzzy_score_of(lower(m.name), ql) {
        Some(s) => Some(
            ResultModel {
                name: m.name,
                path: m.path,
                is_app: false,
                score: bump(
                    s,
                    if has_launch_ext(lower(m.name)) {
                        BONUS_LAUNCHABLE_EXT as int
                    } else {
                        0
                    },
                ),
            },
        ),
        None => None,
    }
}

/// The directory aggregator's output: the matching entries in enumeration
/// order, stopping once `budget` results have been contributed.
pub open spec fn dir_results(entries: Seq<EntryModel>, ql: Seq<char>, budget: nat) -> Seq<
    ResultModel,
>
    decreases entries.len(),
{
    if entries.len() == 0 || budget == 0 {
        Seq::empty()
    } else {
        match dir_score(entries[0], ql) {
            Some(r) => seq![r] + dir_results(entries.drop_first(), ql, (budget - 1) as nat),
            None => dir_results(entries.drop_first(), ql, budget),
        }
    }
}

/// Everything the directory aggregator emits fuzzy-matched the query.
pub proof fn lemma_dir_results_matched(
    entries: Seq<EntryModel>,
    ql: Seq<char>,
    budget: nat,
    y: ResultModel,
)
    requires
        dir_results(entries, ql, budget).contains(y),
    ensures
        fuzzy_score_of(lower(y.name), ql) is Some,
    decreases entries.len(),
{
    if entries.len() == 0 || budget == 0 {
    } else {
        match dir_score(entries[0], ql) {
            Some(r) => {
                let rest = dir_results(entries.drop_first(), ql, (budget - 1) as nat);
                let s = seq![r] + rest;
                let w = choose|j: int| 0 <= j < s.len() && s[j] == y;
                if w == 0 {
                    assert(y == r);
                } else {
                    assert(rest[w - 1] == y);
                    assert(rest.contains(y));
                    lemma_dir_results_matched(entries.drop_first(), ql, (budget - 1) as nat, y);
                }
            },
            None => {
                lemma_dir_results_matched(entries.drop_first(), ql, budget, y);
            },
        }
    }
}

/// Scores the enumerator's snapshot against the lowercased query, keeping
/// matches in order and stopping hard at `DIR_RESULT_CAP` results.
pub fn search_directory_entries(entries: &Vec<FileEntry>, query_l: &str) -> (r: Vec<FileResult>)
    ensures
        models(r@) == dir_results(entry_models(entries@), query_l@, DIR_RESULT_CAP as nat),
{
    let ghost ems = entry_models(entries@);
    let n = entries.len();
    let mut out: Vec<FileResult> = Vec::new();
    proof {
        assert(models(out@) =~= Seq::<ResultModel>::empty());
        assert(ems.skip(0) =~= ems);
        assert(Seq::<ResultModel>::empty() + dir_results(ems, query_l@, DIR_RESULT_CAP as nat)
            =~= dir_results(ems, query_l@, DIR_RESULT_CAP as nat));
    }
    let mut i: usize = 0;
    while i < n && out.len() < DIR_RESULT_CAP
        invariant
            0 <= i <= n,
            n == entries@.len(),
            out@.len() <= DIR_RESULT_CAP,
            ems == entry_models(entries@),
            dir_results(ems, query_l@, DIR_RESULT_CAP as nat) == models(out@) + dir_results(
                ems.skip(i as int),
                query_l@,
                (DIR_RESULT_CAP - out@.len()) as nat,
            ),
        decreases n - i,
    {
        let e = &entries[i];
        let lname = to_lower_str(e.name.as_str());
        let score_opt = fuzzy_score(lname.as_str(), query_l);
        proof {
            let m = ems[i as int];
            assert(ems.skip(i as int).len() > 0);
            assert(ems.skip(i as int)[0] == m);
            assert(ems.skip(i as int).drop_first() =~= ems.skip(i + 1));
        }
        match score_opt {
            Some(s) => {
                let bonus: i64 = if launch_ext(lname.as_str()) {
                    BONUS_LAUNCHABLE_EXT
                } else {
                    0
                };
                let score = bump_score(s, bonus);
                let ghost prev = out@;
                out.push(
                    FileResult {
                        name: e.name.clone(),
                        path: e.path.clone(),
                        is_app: false,
                        score,
                    },
                );
                proof {
                    let m = ems[i as int];
                    let rest = dir_results(
                        ems.skip(i + 1),
                        query_l@,
                        (DIR_RESULT_CAP - out@.len()) as nat,
                    );
                    assert(out@[prev.len() as int]@ == dir_score(m, query_l@).unwrap());
                    assert(models(out@) =~~= models(prev).push(dir_score(m, query_l@).unwrap()));
                    assert(models(prev).push(dir_score(m, query_l@).unwrap()) + rest
                        =~~= models(prev) + (seq![dir_score(m, query_l@).unwrap()] + rest));
                }
            },
            None => {},
        }
        i = i + 1;
    }
    proof {
        if i == n {
            assert(ems.skip(n as int) =~= Seq::<EntryModel>::empty());
        }
        assert(dir_results(ems.skip(i as int), query_l@, (DIR_RESULT_CAP - out@.len()) as nat)
            =~= Seq::<ResultModel>::empty());
        assert(models(out@) + Seq::<ResultModel>::empty() =~= models(out@));
    }
    out
}

// ---------------------------------------------------------------------------
// Executable index
// ---------------------------------------------------------------------------

/// What one index entry becomes: only entries the enumerator marked
/// launchable compete, and a match carries the executable bonus.
pub open spec fn exec_score(m: EntryModel, ql: Seq<char>) -> Option<ResultModel> {
    if !m.is_executable_hint {
        None
    } else {
        match fuzzy_score_of(lower(m.name), ql) {
            Some(s) => Some(
                ResultModel {
                    name: m.name,
                    path: m.path,
                    is_app: true,
                    score: bump(s, BONUS_EXECUTABLE as int),
                },
            ),
            None => None,
        }
    }
}

/// The executable-index aggregator's output, in enumeration order.
pub open spec fn exec_results(entries: Seq<EntryModel>, ql: Seq<char>) -> Seq<ResultModel>
    decreases entries.len(),
{
    if entries.len() == 0 {
        Seq::empty()
    } else {
        match exec_score(entries[0], ql) {
            Some(r) => seq![r] + exec_results(entries.drop_first(), ql),
            None => exec_results(entries.drop_first(), ql),
        }
    }
}

/// Everything the executable index emits fuzzy-matched the query.
pub proof fn lemma_exec_results_matched(entries: Seq<EntryModel>, ql: Seq<char>, y: ResultModel)
    requires
        exec_results(entries, ql).contains(y),
    ensures
        fuzzy_score_of(lower(y.name), ql) is Some,
    decreases entries.len(),
{
    if entries.len() == 0 {
    } else {
        match exec_score(entries[0], ql) {
            Some(r) => {
                let rest = exec_results(entries.drop_first(), ql);
                let s = seq![r] + rest;
                let w = choose|j: int| 0 <= j < s.len() && s[j] == y;
                if w == 0 {
                    assert(y == r);
                } else {
                    assert(rest[w - 1] == y);
                    assert(rest.contains(y));
                    lemma_exec_results_matched(entries.drop_first(), ql, y);
                }
            },
            None => {
                lemma_exec_results_matched(entries.drop_first(), ql, y);
            },
        }
    }
}

/// Scores the installed-application snapshot against the lowercased query.
pub fn search_executable_entries(entries: &Vec<FileEntry>, query_l: &str) -> (r: Vec<FileResult>)
    ensures
        models(r@) == exec_results(entry_models(entries@), query_l@),
{
    let ghost ems = entry_models(entries@);
    let n = entries.len();
    let mut out: Vec<FileResult> = Vec::new();
    proof {
        assert(models(out@) =~= Seq::<ResultModel>::empty());
        assert(ems.skip(0) =~= ems);
        assert(Seq::<ResultModel>::empty() + exec_results(ems, query_l@) =~= exec_results(
            ems,
            query_l@,
        ));
    }
    let mut i: usize = 0;
    while i < n
        invariant
            0 <= i <= n,
            n == entries@.len(),
            ems == entry_models(entries@),
            exec_results(ems, query_l@) == models(out@) + exec_results(
                ems.skip(i as int),
                query_l@,
            ),
        decreases n - i,
    {
        let e = &entries[i];
        proof {
            let m = ems[i as int];
            assert(ems.skip(i as int).len() > 0);
            assert(ems.skip(i as int)[0] == m);
            assert(ems.skip(i as int).drop_first() =~= ems.skip(i + 1));
        }
        if e.is_executable_hint {
            let lname = to_lower_str(e.name.as_str());
            match fuzzy_score(lname.as_str(), query_l) {
                Some(s) => {
                    let score = bump_score(s, BONUS_EXECUTABLE);
                    let ghost prev = out@;
                    out.push(
                        FileResult {
                            name: e.name.clone(),
                            path: e.path.clone(),
                            is_app: true,
                            score,
                        },
                    );
                    proof {
                        let m = ems[i as int];
                        let rest = exec_results(ems.skip(i + 1), query_l@);
                        assert(out@[prev.len() as int]@ == exec_score(m, query_l@).unwrap());
                        assert(models(out@) =~~= models(prev).push(
                            exec_score(m, query_l@).unwrap(),
                        ));
                        assert(models(prev).push(exec_score(m, query_l@).unwrap()) + rest
                            =~~= models(prev) + (seq![exec_score(m, query_l@).unwrap()] + rest));
                    }
                },
                None => {},
            }
        }
        i = i + 1;
    }
    proof {
        assert(ems.skip(n as int) =~= Seq::<EntryModel>::empty());
        assert(models(out@) + Seq::<ResultModel>::empty() =~= models(out@));
    }
    out
}

// ---------------------------------------------------------------------------
// The curated registry
// ---------------------------------------------------------------------------

/// The fixed curated registry of common utilities, in its curated order
/// with its fixed ranks: exactly the default view of an empty query.
pub open spec fn curated_default() -> Seq<ResultModel> {
    seq![
        ResultModel { name: "Calculadora"@, path: "calc.exe"@, is_app: true, score: 1000 },
        ResultModel { name: "Bloco de Notas"@, path: "notepad.exe"@, is_app: true, score: 900 },
        ResultModel { name: "VS Code"@, path: "code"@, is_app: true, score: 800 },
        ResultModel { name: "PowerShell"@, path: "powershell.exe"@, is_app: true, score: 700 },
        ResultModel {
            name: "Explorador de Arquivos"@,
            path: "explorer.exe"@,
            is_app: true,
            score: 600,
        },
        ResultModel { name: "Prompt de Comando"@, path: "cmd.exe"@, is_app: true, score: 500 },
        ResultModel { name: "Configurações"@, path: "ms-settings:"@, is_app: true, score: 400 },
        ResultModel {
            name: "Painel de Controle"@,
            path: "control.exe"@,
            is_app: true,
            score: 300,
        },
        ResultModel {
            name: "Gerenciador de Tarefas"@,
            path: "taskmgr.exe"@,
            is_app: true,
            score: 200,
        },
    ]
}

/// The curated registry as results, in curated order with fixed ranks.
pub fn get_common_apps() -> (r: Vec<FileResult>)
    ensures
        models(r@) == curated_default(),
{
    let mut out: Vec<FileResult> = Vec::new();
    out.push(FileResult::new(String::from_str("Calculadora"), String::from_str("calc.exe"), true, 1000));
    out.push(FileResult::new(String::from_str("Bloco de Notas"), String::from_str("notepad.exe"), true, 900));
    out.push(FileResult::new(String::from_str("VS Code"), String::from_str("code"), true, 800));
    out.push(FileResult::new(String::from_str("PowerShell"), String::from_str("powershell.exe"), true, 700));
    out.push(FileResult::new(String::from_str("Explorador de Arquivos"), String::from_str("explorer.exe"), true, 600));
    out.push(FileResult::new(String::from_str("Prompt de Comando"), String::from_str("cmd.exe"), true, 500));
    out.push(FileResult::new(String::from_str("Configurações"), String::from_str("ms-settings:"), true, 400));
    out.push(FileResult::new(String::from_str("Painel de Controle"), String::from_str("control.exe"), true, 300));
    out.push(FileResult::new(String::from_str("Gerenciador de Tarefas"), String::from_str("taskmgr.exe"), true, 200));
    proof {
        assert(models(out@) =~~= curated_default());
    }
    out
}

/// What one curated entry becomes on a non-empty query: it competes like
/// any other candidate, scored by the fuzzy matcher alone.
pub open spec fn curated_score(m: ResultModel, ql: Seq<char>) -> Option<ResultModel> {
    match fuzzy_score_of(lower(m.name), ql) {
        Some(s) => Some(
            ResultModel { name: m.name, path: m.path, is_app: m.is_app, score: s as int },
        ),
        None => None,
    }
}

/// The curated aggregator's output on a non-empty query.
pub open spec fn curated_results(s: Seq<ResultModel>, ql: Seq<char>) -> Seq<ResultModel>
    decreases s.len(),
{
    if s.len() == 0 {
        Seq::empty()
    } else {
        match curated_score(s[0], ql) {
            Some(r) => seq![r] + curated_results(s.drop_first(), ql),
            None => curated_results(s.drop_first(), ql),
        }
    }
}

/// Everything the curated aggregator emits fuzzy-matched the query.
pub proof fn lemma_curated_results_matched(s: Seq<ResultModel>, ql: Seq<char>, y: ResultModel)
    requires
        curated_results(s, ql).contains(y),
    ensures
        fuzzy_score_of(lower(y.name), ql) is Some,
    decreases s.len(),
{
    if s.len() == 0 {
    } else {
        match curated_score(s[0], ql) {
            Some(r) => {
                let rest = curated_results(s.drop_first(), ql);
                let t = seq![r] + rest;
                let w = choose|j: int| 0 <= j < t.len() && t[j] == y;
                if w == 0 {
                    assert(y == r);
                } else {
                    assert(rest[w - 1] == y);
                    assert(rest.contains(y));
                    lemma_curated_results_matched(s.drop_first(), ql, y);
                }
            },
            None => {
                lemma_curated_results_matched(s.drop_first(), ql, y);
            },
        }
    }
}

/// Scores the curated registry against the lowercased query.
pub fn search_common_apps(query_l: &str) -> (r: Vec<FileResult>)
    ensures
        models(r@) == curated_results(curated_default(), query_l@),
{
    let apps = get_common_apps();
    let ghost cms = curated_default();
    let n = apps.len();
    let mut out: Vec<FileResult> = Vec::new();
    proof {
        assert(models(out@) =~= Seq::<ResultModel>::empty());
        assert(cms.skip(0) =~= cms);
        assert(Seq::<ResultModel>::empty() + curated_results(cms, query_l@) =~= curated_results(
            cms,
            query_l@,
        ));
    }
    let mut i: usize = 0;
    while i < n
        invariant
            0 <= i <= n,
            n == apps@.len(),
            models(apps@) == cms,
            curated_results(cms, query_l@) == models(out@) + curated_results(
                cms.skip(i as int),
                query_l@,
            ),
        decreases n - i,
    {
        let a = &apps[i];
        let lname = to_lower_str(a.name.as_str());
        proof {
            assert(cms.skip(i as int).len() > 0);
            assert(cms.skip(i as int)[0] == cms[i as int]);
            assert(cms.skip(i as int).drop_first() =~= cms.skip(i + 1));
            assert(apps@[i as int]@ == cms[i as int]);
        }
        match fuzzy_score(lname.as_str(), query_l) {
            Some(s) => {
                let ghost prev = out@;
                out.push(
                    FileResult {
                        name: a.name.clone(),
                        path: a.path.clone(),
                        is_app: a.is_app,
                        score: s,
                    },
                );
                proof {
                    let m = cms[i as int];
                    let rest = curated_results(cms.skip(i + 1), query_l@);
                    assert(out@[prev.len() as int]@ == curated_score(m, query_l@).unwrap());
                    assert(models(out@) =~~= models(prev).push(
                        curated_score(m, query_l@).unwrap(),
                    ));
                    assert(models(prev).push(curated_score(m, query_l@).unwrap()) + rest
                        =~~= models(prev) + (seq![curated_score(m, query_l@).unwrap()] + rest));
                }
            },
            None => {},
        }
        i = i + 1;
    }
    proof {
        assert(cms.skip(n as int) =~= Seq::<ResultModel>::empty());
        assert(models(out@) + Seq::<ResultModel>::empty() =~= models(out@));
    }
    out
}

} // verus!
