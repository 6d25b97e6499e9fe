use vstd::prelude::*;

verus! {

/// Highest score band: a terminal-command intent always sorts first.
pub const SCORE_TERMINAL: i64 = 20000;

/// Score band shared by the other recognized intents (web shortcut,
/// calculator, clipboard lookup, conversion).
pub const SCORE_INTENT: i64 = 10000;

/// Structural bonus for a match found in the installed-executable index.
pub const BONUS_EXECUTABLE: i64 = 2000;

/// Structural bonus for a file whose name carries a launchable extension.
pub const BONUS_LAUNCHABLE_EXT: i64 = 1000;

/// Hard cap on the length of the list `search` returns.
pub const MAX_RESULTS: usize = 20;

/// Hard stop on how many results the directory-search aggregator may
/// contribute, so that enumeration of a huge tree stays bounded.
pub const DIR_RESULT_CAP: usize = 50;

/// One actionable entry in the launcher's ranked output. `path` is the
/// opaque dispatch token the host's activator consumes: a filesystem path,
/// a URL, or a synthetic token such as `terminal:<cmd>`, `result:<value>`
/// or `clip:<content>`.
#[derive(Clone, Debug, PartialEq, Eq)]
pub struct FileResult {
    pub name: String,
    pub path: String,
    pub is_app: bool,
    pub score: i64,
}

/// The mathematical picture of a `FileResult`: its strings as character
/// sequences and its score as an unbounded integer.
pub struct ResultModel {
    pub name: Seq<char>,
    pub path: Seq<char>,
    pub is_app: bool,
    pub score: int,
}

impl View for FileResult {
    type V = ResultModel;

    open spec fn view(&self) -> ResultModel {
        ResultModel {
            name: self.name@,
            path: self.path@,
            is_app: self.is_app,
            score: self.score as int,
        }
    }
}

/// The models of a sequence of results, element by element.
pub open spec fn models(s: Seq<FileResult>) -> Seq<ResultModel> {
    s.map_values(|r: FileResult| r@)
}

/// The sequence cut down to at most `n` elements.
pub open spec fn trunc<A>(s: Seq<A>, n: int) -> Seq<A> {
    if s.len() <= n {
        s
    } else {
        s.take(n)
    }
}

impl FileResult {
    pub fn new(name: String, path: String, is_app: bool, score: i64) -> (r: Self)
        ensures
            r@ == (ResultModel { name: name@, path: path@, is_app, score: score as int }),
    {
        Self { name, path, is_app, score }
    }

    /// A field-for-field copy of the result.
    pub fn clone_result(&self) -> (r: Self)
        ensures
            r@ == self@,
    {
        Self {
            name: self.name.clone(),
            path: self.path.clone(),
            is_app: self.is_app,
            score: self.score,
        }
    }
}

/// Host-shell bookkeeping: whether the global hotkey has been registered.
/// The host owns the lock around it; the flag itself is plain state.
pub struct AppState {
    pub hotkey_registered: bool,
}

impl AppState {
    pub fn new() -> (r: Self)
        ensures
            !r.hotkey_registered,
    {
        AppState { hotkey_registered: false }
    }

    /// Records that the hotkey is registered; registering is idempotent,
    /// so the flag only ever moves from false to true.
    pub fn mark_hotkey_registered(&mut self)
        ensures
            final(self).hotkey_registered,
    {
        self.hotkey_registered = true;
    }
}

} // verus!
