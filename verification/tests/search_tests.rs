use clauncher::aggregate::{get_common_apps, FileEntry};
use clauncher::clipboard::ClipboardEntry;
use clauncher::results::FileResult;
use clauncher::search::search;

use fuzzy_matcher::skim::SkimMatcherV2;
use fuzzy_matcher::FuzzyMatcher;

fn entry(name: &str, path: &str, hint: bool) -> FileEntry {
    FileEntry {
        name: name.to_string(),
        path: path.to_string(),
        is_executable_hint: hint,
    }
}

fn no_sources() -> (Vec<FileEntry>, Vec<FileEntry>, Vec<ClipboardEntry>) {
    (Vec::new(), Vec::new(), Vec::new())
}

fn run(query: &str) -> Vec<FileResult> {
    let (files, execs, clips) = no_sources();
    search(query, &files, &execs, &clips, true)
}

#[test]
fn web_shortcut_is_template_plus_encoded_term() {
    let r = run("g: rust lang ");
    assert_eq!(r.len(), 1);
    assert_eq!(r[0].path, "https://www.google.com/search?q=rust%20lang");
    assert_eq!(r[0].score, 10000);
    assert!(r[0].is_app);
    let r = run("google:hello");
    assert_eq!(r[0].path, "https://www.google.com/search?q=hello");
    let r = run("mail:someone@example.com");
    assert_eq!(r.len(), 1);
    assert!(r[0].path.starts_with("mailto:"));
}

#[test]
fn terminal_query_yields_single_maximum_priority_result() {
    let r = run(">  echo hi  ");
    assert_eq!(r.len(), 1);
    assert_eq!(r[0].path, "terminal:echo hi");
    assert_eq!(r[0].score, 20000);
}

#[test]
fn arithmetic_label_embeds_evaluated_value() {
    let r = run("2+2");
    assert_eq!(r.len(), 1);
    assert_eq!(r[0].name, "🧮 = 4");
    assert_eq!(r[0].path, "result:4");
    let r = run("10 * (3-1)");
    assert_eq!(r.len(), 1);
    assert_eq!(r[0].name, "🧮 = 20");
    assert_eq!(r[0].path, "result:20");
}

#[test]
fn gibberish_is_no_calculator_and_matches_nothing() {
    let r = run("gibberish");
    assert!(r.iter().all(|x| !x.path.starts_with("result:")));
    assert_eq!(r.len(), 0);
}

#[test]
fn empty_query_returns_curated_default_untouched() {
    // Sources that would match almost anything must not be consulted.
    let files = vec![entry("anything.txt", "/tmp/anything.txt", false)];
    let execs = vec![entry("anything.exe", "/apps/anything.exe", true)];
    let clips = vec![ClipboardEntry { content: "anything".to_string(), is_sensitive: false }];
    for query in ["", "   ", "\t"] {
        let r = search(query, &files, &execs, &clips, true);
        let curated = get_common_apps();
        assert_eq!(r.len(), curated.len());
        for (got, want) in r.iter().zip(curated.iter()) {
            assert_eq!(got.name, want.name);
            assert_eq!(got.path, want.path);
            assert_eq!(got.score, want.score);
        }
    }
}

#[test]
fn curated_default_has_fixed_ranks_in_order() {
    let apps = get_common_apps();
    assert_eq!(apps.len(), 9);
    assert_eq!(apps[0].name, "Calculadora");
    assert_eq!(apps[0].path, "calc.exe");
    assert_eq!(apps[0].score, 1000);
    assert_eq!(apps[8].name, "Gerenciador de Tarefas");
    assert_eq!(apps[8].score, 200);
    for w in apps.windows(2) {
        assert!(w[0].score > w[1].score);
    }
}

#[test]
fn plain_search_is_sorted_bounded_and_all_entries_match() {
    let files = vec![
        entry("report.txt", "/docs/report.txt", false),
        entry("repair.exe", "/tools/repair.exe", false),
        entry("zzz.bin", "/pics/zzz.bin", false),
        entry("rep.txt", "/docs/rep.txt", false),
    ];
    let execs = vec![
        entry("RepoViewer.exe", "/apps/RepoViewer.exe", true),
        entry("other.exe", "/apps/other.exe", false),
    ];
    let clips = Vec::new();
    let query = "rep";
    let r = search(query, &files, &execs, &clips, true);
    assert!(r.len() <= 20);
    assert!(!r.is_empty());
    for w in r.windows(2) {
        assert!(w[0].score >= w[1].score);
    }
    let matcher = SkimMatcherV2::default();
    for x in &r {
        assert!(
            matcher.fuzzy_match(&x.name.to_lowercase(), query).is_some(),
            "unmatched entry {:?}",
            x.name
        );
    }
    assert!(r.iter().all(|x| x.path != "/pics/zzz.bin"));
}

#[test]
fn executable_index_outranks_plain_files() {
    let files = vec![entry("notes.txt", "/docs/notes.txt", false)];
    let execs = vec![entry("notes.exe", "/apps/notes.exe", true)];
    let clips = Vec::new();
    let r = search("notes", &files, &execs, &clips, true);
    assert_eq!(r[0].path, "/apps/notes.exe");
    assert!(r[0].score >= r[1].score + 1000);
}

#[test]
fn launchable_extension_gets_its_bonus() {
    let files = vec![
        entry("setup.lnk", "/a/setup.lnk", false),
        entry("setup.txt", "/b/setup.txt", false),
    ];
    let (_, execs, clips) = no_sources();
    let r = search("setup", &files, &execs, &clips, true);
    assert_eq!(r.len(), 2);
    assert_eq!(r[0].path, "/a/setup.lnk");
    assert_eq!(r[0].score, r[1].score + 1000);
}

#[test]
fn duplicate_dispatch_tokens_keep_first_occurrence_only() {
    let files = vec![
        entry("todo.txt", "/home/todo.txt", false),
        entry("todo.txt", "/home/todo.txt", false),
    ];
    let (_, execs, clips) = no_sources();
    let r = search("todo", &files, &execs, &clips, true);
    assert_eq!(r.iter().filter(|x| x.path == "/home/todo.txt").count(), 1);
}

#[test]
fn equal_scores_keep_insertion_order() {
    let files = vec![
        entry("plan.txt", "/first/plan.txt", false),
        entry("plan.txt", "/second/plan.txt", false),
    ];
    let (_, execs, clips) = no_sources();
    let r = search("plan", &files, &execs, &clips, true);
    assert_eq!(r.len(), 2);
    assert_eq!(r[0].score, r[1].score);
    assert_eq!(r[0].path, "/first/plan.txt");
    assert_eq!(r[1].path, "/second/plan.txt");
}

#[test]
fn result_list_is_capped_at_twenty() {
    let mut files = Vec::new();
    for i in 0..60 {
        files.push(entry("log.txt", &format!("/var/{}/log.txt", i), false));
    }
    let (_, execs, clips) = no_sources();
    let r = search("log", &files, &execs, &clips, true);
    assert_eq!(r.len(), 20);
}

#[test]
fn search_is_idempotent_over_unchanged_sources() {
    let files = vec![
        entry("report.txt", "/docs/report.txt", false),
        entry("repo.exe", "/apps/repo.exe", true),
    ];
    let execs = vec![entry("RepoViewer.exe", "/apps/RepoViewer.exe", true)];
    let clips = vec![ClipboardEntry { content: "repo notes".to_string(), is_sensitive: false }];
    for query in ["rep", "", "g:x", "2+2", "clip:repo", "100 usd to brl"] {
        let a = search(query, &files, &execs, &clips, true);
        let b = search(query, &files, &execs, &clips, true);
        assert_eq!(a, b, "query {:?}", query);
    }
}

#[test]
fn conversion_query_builds_encoded_web_search() {
    let r = run("100 usd to brl");
    assert_eq!(r.len(), 1);
    assert_eq!(r[0].name, "💱 Converter 100 usd para brl");
    assert_eq!(
        r[0].path,
        "https://www.google.com/search?q=100%20usd%20to%20brl"
    );
    assert_eq!(r[0].score, 10000);
}

#[test]
fn curated_apps_compete_under_fuzzy_score_on_nonempty_queries() {
    let (files, execs, clips) = no_sources();
    let r = search("calcul", &files, &execs, &clips, false);
    assert_eq!(r.len(), 1);
    assert_eq!(r[0].path, "calc.exe");
    let matcher = SkimMatcherV2::default();
    let expected = matcher.fuzzy_match("calculadora", "calcul").unwrap();
    assert_eq!(r[0].score, expected);
}

#[test]
fn bare_dotfile_named_like_an_extension_gets_no_bonus() {
    let files = vec![
        entry(".exe", "/odd/.exe", false),
        entry("tool.exe", "/bin/tool.exe", false),
    ];
    let (_, execs, clips) = no_sources();
    let r = search(".exe", &files, &execs, &clips, false);
    assert_eq!(r.len(), 2);
    let matcher = SkimMatcherV2::default();
    let dotfile = r.iter().find(|x| x.path == "/odd/.exe").unwrap();
    assert_eq!(dotfile.score, matcher.fuzzy_match(".exe", ".exe").unwrap());
    let tool = r.iter().find(|x| x.path == "/bin/tool.exe").unwrap();
    assert_eq!(tool.score, matcher.fuzzy_match("tool.exe", ".exe").unwrap() + 1000);
}
