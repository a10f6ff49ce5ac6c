use open_pdf_studio::docs::{page_slot, DocMeta, DocStore, OpenOutcome};

/// In these tests a tab's view is a zoom level in percent, and its data a
/// list of page heights.
type Store = DocStore<u32, Vec<u32>>;

fn open(s: &mut Store, path: &str, zoom_now: u32) -> OpenOutcome {
    s.open_document(path.to_string(), 1000, 1, 3, zoom_now, 100, Vec::new())
}

fn added(o: OpenOutcome) -> u32 {
    match o {
        OpenOutcome::Added { id } => id,
        OpenOutcome::Existing { .. } => panic!("expected a new tab"),
    }
}

#[test]
fn empty_store() {
    let s = Store::new();
    assert!(s.tabs().is_empty());
    assert_eq!(s.active(), 0);
    assert!(s.active_tab().is_none());
    assert!(s.props().is_none());
    assert!(s.tab_items().is_empty());
    assert_eq!(s.index_of(0), None);
    assert!(!s.ids_exhausted());
}

#[test]
fn alloc_ids_count_up() {
    let mut s = Store::new();
    assert_eq!(s.alloc_id(), 0);
    assert_eq!(s.alloc_id(), 1);
    assert_eq!(s.alloc_id(), 2);
}

#[test]
fn open_adds_tabs_and_activates_them() {
    let mut s = Store::new();
    let a = added(open(&mut s, "/docs/a.pdf", 100));
    let b = added(open(&mut s, "/docs/b.pdf", 250));
    assert_eq!((a, b), (0, 1));
    assert_eq!(s.active(), 1);
    let t = &s.tabs()[1];
    assert_eq!(t.name, "b.pdf");
    assert_eq!(t.path, "/docs/b.pdf");
    assert_eq!(t.total, 0);
    assert_eq!(t.current_page, 1);
    assert_eq!(t.display_mode, 1);
    assert_eq!(t.file_size, 1000);
    assert_eq!(t.view, 100);
    // The view live when b opened was saved into a.
    assert_eq!(s.tabs()[0].view, 250);
    assert_eq!(s.tabs()[0].current_page, 3);
}

#[test]
fn open_same_path_switches_instead_of_duplicating() {
    let mut s = Store::new();
    let a = added(open(&mut s, "/docs/a.pdf", 100));
    added(open(&mut s, "/docs/b.pdf", 100));
    match open(&mut s, "/docs//a.pdf", 300) {
        OpenOutcome::Existing { id, changed } => {
            assert_eq!(id, a);
            assert!(changed);
        }
        OpenOutcome::Added { .. } => panic!("path already open"),
    }
    assert_eq!(s.tabs().len(), 2);
    assert_eq!(s.active(), 0);
    assert_eq!(s.tabs()[1].view, 300);
    match open(&mut s, "/docs/./a.pdf", 400) {
        OpenOutcome::Existing { id, changed } => {
            assert_eq!(id, a);
            assert!(!changed);
        }
        OpenOutcome::Added { .. } => panic!("path already open"),
    }
    // Nothing saved when the tab was already active.
    assert_eq!(s.tabs()[0].view, 100);
}

#[test]
fn document_name_falls_back() {
    let mut s = Store::new();
    added(open(&mut s, "/", 100));
    assert_eq!(s.tabs()[0].name, "document");
}

#[test]
fn select_tab_saves_and_restores_views() {
    let mut s = Store::new();
    let a = added(open(&mut s, "/a.pdf", 100));
    let b = added(open(&mut s, "/b.pdf", 100));
    // Leave b at 175%, page 9.
    assert!(s.select_tab(a, 0, 9, 175));
    assert_eq!(s.active(), 0);
    assert_eq!(s.tabs()[1].view, 175);
    assert_eq!(s.tabs()[1].current_page, 9);
    assert_eq!(s.tabs()[1].display_mode, 0);
    // Selecting the active tab, or an unknown id, changes nothing.
    assert!(!s.select_tab(a, 1, 1, 999));
    assert!(!s.select_tab(77, 1, 1, 999));
    assert_eq!(s.tabs()[0].view, 100);
    assert!(s.select_tab(b, 1, 2, 120));
    assert_eq!(s.active_tab().unwrap().view, 175);
    assert_eq!(s.tabs()[0].view, 120);
}

#[test]
fn close_tab_keeps_or_moves_focus() {
    let mut s = Store::new();
    let ids: Vec<u32> = (0..4).map(|i| added(open(&mut s, &format!("/d{i}.pdf"), 100))).collect();
    assert!(s.select_tab(ids[2], 1, 1, 100));
    // Closing a tab before the active one keeps the same tab active.
    assert!(!s.close_tab(ids[0]));
    assert_eq!(s.tabs().len(), 3);
    assert_eq!(s.active_tab().unwrap().id, ids[2]);
    // Closing a tab after the active one keeps it too.
    assert!(!s.close_tab(ids[3]));
    assert_eq!(s.active_tab().unwrap().id, ids[2]);
    // Closing the active last tab activates the new last tab.
    assert!(s.close_tab(ids[2]));
    assert_eq!(s.active_tab().unwrap().id, ids[1]);
    // Unknown ids change nothing.
    assert!(!s.close_tab(99));
    assert_eq!(s.tabs().len(), 1);
    assert!(s.close_tab(ids[1]));
    assert!(s.tabs().is_empty());
    assert_eq!(s.active(), 0);
    assert!(s.active_tab().is_none());
}

#[test]
fn close_active_tab_in_the_middle_activates_the_next() {
    let mut s = Store::new();
    let ids: Vec<u32> = (0..3).map(|i| added(open(&mut s, &format!("/m{i}.pdf"), 100))).collect();
    assert!(s.select_tab(ids[1], 1, 1, 100));
    assert!(s.close_tab(ids[1]));
    assert_eq!(s.active_tab().unwrap().id, ids[2]);
}

#[test]
fn tab_items_mark_the_active_tab() {
    let mut s = Store::new();
    added(open(&mut s, "/x/one.pdf", 100));
    added(open(&mut s, "/x/two.pdf", 100));
    let items = s.tab_items();
    assert_eq!(items.len(), 2);
    assert_eq!((items[0].id, items[0].name.as_str(), items[0].active), (0, "one.pdf", false));
    assert_eq!((items[1].id, items[1].name.as_str(), items[1].active), (1, "two.pdf", true));
}

#[test]
fn opened_records_the_document() {
    let mut s = Store::new();
    let a = added(open(&mut s, "/x/one.pdf", 100));
    let b = added(open(&mut s, "/x/two.pdf", 100));
    let mut meta = DocMeta::empty();
    meta.title = "Annual report".to_string();
    meta.created = "D:20230405060708Z".to_string();
    meta.modified = "garbled".to_string();
    assert_eq!(s.opened(a, "One".to_string(), 12, meta), Some((0, false)));
    assert_eq!(s.tabs()[0].total, 12);
    assert_eq!(s.tabs()[0].name, "One");
    assert_eq!(s.opened(b, "Two".to_string(), 3, DocMeta::empty()), Some((1, true)));
    assert_eq!(s.opened(42, "Nope".to_string(), 3, DocMeta::empty()), None);
    assert!(s.select_tab(a, 1, 1, 100));
    let p = s.props().unwrap();
    assert_eq!(p.file_name, "One");
    assert_eq!(p.file_path, "/x/one.pdf");
    assert_eq!(p.file_size, "1000 B");
    assert_eq!(p.title, "Annual report");
    assert_eq!(p.created, "2023-04-05 06:07");
    assert_eq!(p.modified, "garbled");
    assert_eq!(p.pages, "12");
}

#[test]
fn props_show_negative_counts_and_large_sizes() {
    let mut s = Store::new();
    s.open_document("/big.pdf".to_string(), 5 * 1048576 + 524288, 1, 1, 0, 0, vec![7]);
    s.opened(0, "big".to_string(), -1, DocMeta::empty());
    let p = s.props().unwrap();
    assert_eq!(p.file_size, "5.5 MB");
    assert_eq!(p.pages, "-1");
    assert_eq!(p.created, "");
}

#[test]
fn data_mut_edits_one_tab() {
    let mut s = Store::new();
    added(open(&mut s, "/a.pdf", 100));
    added(open(&mut s, "/b.pdf", 100));
    s.data_mut(0).push(842);
    assert_eq!(s.tabs()[0].data, vec![842]);
    assert!(s.tabs()[1].data.is_empty());
    assert_eq!(s.tabs()[0].view, 100);
}

#[test]
fn active_tab_mut_edits_the_active_tab() {
    let mut s = Store::new();
    added(open(&mut s, "/a.pdf", 100));
    added(open(&mut s, "/b.pdf", 100));
    s.active_tab_mut().unwrap().current_page = 42;
    assert_eq!(s.tabs()[1].current_page, 42);
    assert_eq!(s.tabs()[0].current_page, 3);
    let mut empty = Store::new();
    assert!(empty.active_tab_mut().is_none());
}

#[test]
fn page_slots_are_bounds_checked() {
    assert_eq!(page_slot(0, 3), Some(0));
    assert_eq!(page_slot(2, 3), Some(2));
    assert_eq!(page_slot(3, 3), None);
    assert_eq!(page_slot(-1, 3), None);
    assert_eq!(page_slot(0, 0), None);
}

#[test]
fn defaults_are_empty() {
    let s: Store = Default::default();
    assert!(s.tabs().is_empty());
    assert_eq!(s.active(), 0);
    let m = DocMeta::default();
    assert!(m.title.is_empty() && m.version.is_empty() && m.created.is_empty());
}

#[test]
fn active_status_lines() {
    let mut s = Store::new();
    assert_eq!(s.active_status().as_deref(), Some("No document open — use File ▸ Open to load a PDF."));
    let a = added(open(&mut s, "/x/a.pdf", 100));
    assert_eq!(s.active_status(), None);
    s.opened(a, "a.pdf".to_string(), 4, DocMeta::empty());
    assert_eq!(s.active_status().as_deref(), Some("a.pdf  —  4 pages"));
}
