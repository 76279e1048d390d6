use crackleaf::naming::{extension_is_pdf, is_pdf, output_name, unique_output_path};
use crackleaf::worker::{download_dir_from, output_path_for};
use std::collections::HashSet;

#[test]
fn pdf_extension_in_any_case() {
    assert!(is_pdf("a.pdf"));
    assert!(is_pdf("/home/u/Report.PDF"));
    assert!(is_pdf("mixed.PdF"));
}

#[test]
fn other_extensions_are_no_pdf() {
    assert!(!is_pdf("notes.txt"));
    assert!(!is_pdf("pdf"));
    assert!(!is_pdf(".pdf"));
    assert!(!is_pdf("a.pdfx"));
    assert!(!is_pdf("a.pd"));
    assert!(!is_pdf("dir.pdf/file"));
    assert!(!is_pdf(""));
}

#[test]
fn extension_words() {
    assert!(extension_is_pdf("pdf"));
    assert!(extension_is_pdf("PDF"));
    assert!(extension_is_pdf("pDf"));
    assert!(!extension_is_pdf("pdg"));
    assert!(!extension_is_pdf("pd"));
    assert!(!extension_is_pdf("pdff"));
    assert!(!extension_is_pdf(""));
}

#[test]
fn output_names_by_attempt() {
    assert_eq!(output_name("a", 0), "a_unlocked.pdf");
    assert_eq!(output_name("a", 1), "a_unlocked_1.pdf");
    assert_eq!(output_name("a", 10), "a_unlocked_10.pdf");
    assert_eq!(output_name("a", 120), "a_unlocked_120.pdf");
    assert_eq!(output_name("a", 9999), "a_unlocked_9999.pdf");
    assert_eq!(output_name("a", 10000), "a_unlocked_overflow.pdf");
    assert_eq!(output_name("报告", 7), "报告_unlocked_7.pdf");
}

#[test]
fn free_name_is_taken_first() {
    let path = unique_output_path("/dl", "a", |_p: &str| false);
    assert_eq!(path, "/dl/a_unlocked.pdf");
}

#[test]
fn output_collision_takes_next_number() {
    let mut taken = HashSet::new();
    taken.insert(String::from("/dl/a_unlocked.pdf"));
    let path = unique_output_path("/dl", "a", |p: &str| taken.contains(p));
    assert_eq!(path, "/dl/a_unlocked_1.pdf");
    taken.insert(String::from("/dl/a_unlocked_1.pdf"));
    taken.insert(String::from("/dl/a_unlocked_2.pdf"));
    let path = unique_output_path("/dl", "a", |p: &str| taken.contains(p));
    assert_eq!(path, "/dl/a_unlocked_3.pdf");
    assert!(!taken.contains(&path));
}

#[test]
fn output_collision_overflow_when_all_taken() {
    let path = unique_output_path("/dl", "a", |_p: &str| true);
    assert_eq!(path, "/dl/a_unlocked_overflow.pdf");
}

#[test]
fn last_number_before_overflow() {
    let path = unique_output_path("/dl", "a", |p: &str| p != "/dl/a_unlocked_9999.pdf");
    assert_eq!(path, "/dl/a_unlocked_9999.pdf");
}

#[test]
fn output_goes_to_download_dir() {
    let dl = Some(String::from("/home/u/Downloads"));
    let path = output_path_for("/src/doc.pdf", &dl, |_p: &str| false);
    assert_eq!(path, "/home/u/Downloads/doc_unlocked.pdf");
}

#[test]
fn output_goes_beside_source_without_download_dir() {
    let path = output_path_for("/src/doc.pdf", &None, |_p: &str| false);
    assert_eq!(path, "/src/doc_unlocked.pdf");
    let path = output_path_for("doc.pdf", &None, |_p: &str| false);
    assert_eq!(path, "doc_unlocked.pdf");
}

#[test]
fn output_without_parent_or_stem() {
    let path = output_path_for("", &None, |_p: &str| false);
    assert_eq!(path, "./output_unlocked.pdf");
}

#[test]
fn download_dir_choice() {
    assert_eq!(
        download_dir_from(Some(String::from("/d")), Some(String::from("/home/u"))),
        Some(String::from("/d"))
    );
    assert_eq!(
        download_dir_from(None, Some(String::from("/home/u"))),
        Some(String::from("/home/u/Downloads"))
    );
    assert_eq!(download_dir_from(None, None), None);
}
