use open_pdf_studio::format::{opened_status, pages_status};
use open_pdf_studio::library::{first_existing, pdfium_candidates, pdfium_search_paths};

#[test]
fn candidates_without_executable_dir() {
    assert_eq!(pdfium_candidates("libpdfium.so", None), vec!["./libpdfium.so"]);
}

#[test]
fn candidates_in_search_order() {
    let c = pdfium_candidates("libpdfium.so", Some("/opt/app/bin"));
    assert_eq!(
        c,
        vec![
            "./libpdfium.so",
            "/opt/app/bin/libpdfium.so",
            "/opt/app/bin/pdfium-lib/libpdfium.so",
            "/opt/app/bin/../Resources/libpdfium.so",
            "/opt/app/bin/../Resources/pdfium-lib/libpdfium.so",
            "/opt/app/bin/../lib/libpdfium.so",
            "/opt/app/bin/../lib/open-pdf-studio3/libpdfium.so",
            "/opt/app/bin/../lib/open-pdf-studio3/pdfium-lib/libpdfium.so",
        ]
    );
}

#[test]
fn first_existing_candidate() {
    assert_eq!(first_existing(&vec![]), None);
    assert_eq!(first_existing(&vec![false, false]), None);
    assert_eq!(first_existing(&vec![false, true, true]), Some(1));
    assert_eq!(first_existing(&vec![true]), Some(0));
}

#[test]
fn status_lines() {
    assert_eq!(pages_status("a.pdf", 12), "a.pdf  —  12 pages");
    assert_eq!(opened_status("a.pdf", 3), "a.pdf  —  3 pages  (scroll to load)");
    assert_eq!(pages_status("", 0), "  —  0 pages");
}

#[test]
fn search_paths_end_in_the_library_name() {
    let c = pdfium_search_paths(Some("/opt/app/bin"));
    assert_eq!(c.len(), 8);
    assert!(c[0].starts_with("./"));
    assert!(c.iter().all(|p| p.contains("pdfium")));
    assert_eq!(pdfium_search_paths(None).len(), 1);
}
