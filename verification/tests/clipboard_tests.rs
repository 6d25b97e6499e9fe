use clauncher::clipboard::{looks_sensitive, ClipboardEntry, ClipboardHistory};
use clauncher::search::search;

fn clip(content: &str, sensitive: bool) -> ClipboardEntry {
    ClipboardEntry { content: content.to_string(), is_sensitive: sensitive }
}

#[test]
fn clip_lookup_filters_case_insensitively_and_masks_sensitive_entries() {
    let clips = vec![
        clip("my secret plan", false),
        clip("SECRET-9!", true),
        clip("nothing relevant", false),
    ];
    let r = search("clip:secret", &Vec::new(), &Vec::new(), &clips, true);
    assert_eq!(r.len(), 2);
    assert_eq!(r[0].name, "my secret plan");
    assert_eq!(r[0].path, "clip:my secret plan");
    assert_eq!(r[0].score, 10000);
    assert_eq!(r[1].name, "[sensitive]");
    assert_eq!(r[1].path, "clip:SECRET-9!");
}

#[test]
fn clip_lookup_with_empty_term_lists_whole_history_in_order() {
    let clips = vec![clip("bravo", false), clip("alpha", false)];
    let r = search("clip:", &Vec::new(), &Vec::new(), &clips, true);
    assert_eq!(r.len(), 2);
    assert_eq!(r[0].name, "bravo");
    assert_eq!(r[1].name, "alpha");
}

#[test]
fn long_content_is_previewed_with_ellipsis() {
    let long = "x".repeat(60);
    let clips = vec![clip(&long, false)];
    let r = search("clip:x", &Vec::new(), &Vec::new(), &clips, true);
    assert_eq!(r.len(), 1);
    assert_eq!(r[0].name.len(), 48);
    assert!(r[0].name.ends_with("..."));
    assert_eq!(r[0].path, format!("clip:{}", long));
}

#[test]
fn history_push_deduplicates_by_exact_content_and_moves_to_front() {
    let mut h = ClipboardHistory::new();
    h.push_front("a".to_string(), false);
    h.push_front("b".to_string(), false);
    h.push_front("a".to_string(), false);
    let contents: Vec<&str> = h.entries.iter().map(|e| e.content.as_str()).collect();
    assert_eq!(contents, vec!["a", "b"]);
}

#[test]
fn history_is_capped_at_thirty_evicting_the_oldest() {
    let mut h = ClipboardHistory::new();
    for i in 0..35 {
        h.push_front(format!("v{}", i), false);
    }
    assert_eq!(h.entries.len(), 30);
    assert_eq!(h.entries[0].content, "v34");
    assert_eq!(h.entries[29].content, "v5");
    assert!(h.entries.iter().all(|e| e.content != "v4"));
}

#[test]
fn sensitivity_heuristic_flags_token_prefixes_and_short_mixed_text() {
    assert!(looks_sensitive("sk-abcdef"));
    assert!(looks_sensitive("ghp_token"));
    assert!(looks_sensitive("AKIAEXAMPLE"));
    assert!(looks_sensitive("xoxb-hook"));
    assert!(looks_sensitive("pw1!"));
    assert!(!looks_sensitive("hello"));
    assert!(!looks_sensitive("a plain sentence without any digits at all"));
    // Long mixed text without a known prefix stays unflagged: the length
    // threshold is part of the heuristic.
    assert!(!looks_sensitive("this text has 1 digit and symbols!! but is long"));
}
