use open_pdf_studio::settings::{Settings, MAX_RECENT};

fn recents(s: &Settings<()>) -> Vec<&str> {
    s.recent_files.iter().map(|p| p.as_str()).collect()
}

#[test]
fn new_settings_defaults() {
    let s = Settings::new("ada".to_string(), ());
    assert_eq!(s.interface_language, "Auto-detect");
    assert_eq!(s.theme, "Default");
    assert!(!s.restore_session);
    assert_eq!(s.author_name, "ada");
    assert!(s.recent_files.is_empty());
}

#[test]
fn push_recent_moves_to_front_without_duplicates() {
    let mut s = Settings::new(String::new(), ());
    s.push_recent("/a.pdf");
    s.push_recent("/b.pdf");
    s.push_recent("/c.pdf");
    assert_eq!(recents(&s), vec!["/c.pdf", "/b.pdf", "/a.pdf"]);
    s.push_recent("/a.pdf");
    assert_eq!(recents(&s), vec!["/a.pdf", "/c.pdf", "/b.pdf"]);
}

#[test]
fn push_recent_is_idempotent() {
    let mut s = Settings::new(String::new(), ());
    s.push_recent("/a.pdf");
    s.push_recent("/b.pdf");
    s.push_recent("/b.pdf");
    assert_eq!(recents(&s), vec!["/b.pdf", "/a.pdf"]);
}

#[test]
fn push_recent_caps_the_list() {
    let mut s = Settings::new(String::new(), ());
    for i in 0..60 {
        s.push_recent(&format!("/doc{i}.pdf"));
    }
    assert_eq!(s.recent_files.len(), MAX_RECENT);
    assert_eq!(s.recent_files[0], "/doc59.pdf");
    assert_eq!(s.recent_files[MAX_RECENT - 1], "/doc10.pdf");
}

#[test]
fn remove_recent_drops_every_copy() {
    let mut s = Settings::new(String::new(), ());
    s.recent_files = vec!["/a".to_string(), "/b".to_string(), "/a".to_string(), "/c".to_string()];
    s.remove_recent("/a");
    assert_eq!(recents(&s), vec!["/b", "/c"]);
    s.remove_recent("/a");
    assert_eq!(recents(&s), vec!["/b", "/c"]);
    s.remove_recent("/zzz");
    assert_eq!(recents(&s), vec!["/b", "/c"]);
}

#[test]
fn push_then_remove_leaves_the_others() {
    let mut s = Settings::new(String::new(), ());
    s.push_recent("/a");
    s.push_recent("/b");
    s.push_recent("/a");
    s.remove_recent("/a");
    assert_eq!(recents(&s), vec!["/b"]);
}

#[test]
fn recent_entries_filter_case_insensitively() {
    let mut s = Settings::new(String::new(), ());
    s.push_recent("/home/u/Report.PDF");
    s.push_recent("/home/u/notes.pdf");
    s.push_recent("/srv/Ärger.pdf");
    let all = s.recent_entries("");
    assert_eq!(all.len(), 3);
    assert_eq!(all[0].name, "Ärger.pdf");
    assert_eq!(all[0].path, "/srv/Ärger.pdf");
    let rep = s.recent_entries("rEpOrT");
    assert_eq!(rep.len(), 1);
    assert_eq!(rep[0].name, "Report.PDF");
    assert_eq!(rep[0].path, "/home/u/Report.PDF");
    let home = s.recent_entries("HOME");
    assert_eq!(home.len(), 2);
    assert_eq!(home[0].name, "notes.pdf");
    assert_eq!(home[1].name, "Report.PDF");
    let umlaut = s.recent_entries("ÄR");
    assert_eq!(umlaut.len(), 1);
    assert_eq!(s.recent_entries("missing").len(), 0);
}

#[test]
fn recent_entries_unknown_name() {
    let mut s = Settings::new(String::new(), ());
    s.push_recent("/");
    s.push_recent("dir/..");
    let e = s.recent_entries("");
    assert_eq!(e[0].name, "(unknown)");
    assert_eq!(e[1].name, "(unknown)");
}

#[test]
fn narrower_filter_shows_a_sublist() {
    let mut s = Settings::new(String::new(), ());
    for p in ["/x/alpha.pdf", "/x/alps.pdf", "/y/beta.pdf", "/x/Alpaca.pdf"] {
        s.push_recent(p);
    }
    let wide: Vec<String> = s.recent_entries("al").into_iter().map(|e| e.path).collect();
    let narrow: Vec<String> = s.recent_entries("alp").into_iter().map(|e| e.path).collect();
    let narrower: Vec<String> = s.recent_entries("ALPH").into_iter().map(|e| e.path).collect();
    assert_eq!(wide, vec!["/x/Alpaca.pdf", "/x/alps.pdf", "/x/alpha.pdf"]);
    assert_eq!(narrow, wide);
    assert_eq!(narrower, vec!["/x/alpha.pdf"]);
    let all: Vec<String> = s.recent_entries("").into_iter().map(|e| e.path).collect();
    assert_eq!(all.len(), 4);
}

#[test]
fn ascii_filters_ignore_case() {
    let mut s = Settings::new(String::new(), ());
    s.push_recent("/x/Report.pdf");
    s.push_recent("/x/other.pdf");
    let a: Vec<String> = s.recent_entries("report").into_iter().map(|e| e.path).collect();
    let b: Vec<String> = s.recent_entries("REPORT").into_iter().map(|e| e.path).collect();
    assert_eq!(a, b);
    assert_eq!(a, vec!["/x/Report.pdf"]);
}
