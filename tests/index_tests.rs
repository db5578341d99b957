use soyuz::index::{fresh_document, upsert_archive, upsert_homepage};
use soyuz::post::{archive_entry, home_entry};
use soyuz::text::{contains_str, join_lines_exec, split_lines};

const HEADING: &str = "## Latest notes";

#[test]
fn archive_is_created_when_absent() {
    let e = "=> 2024-06-01.gmi 2024-06-01 (Hi)";
    assert_eq!(upsert_archive(None, "# 2024", "2024-06-01.gmi", e), format!("# 2024\n\n{}", e));
}

#[test]
fn archive_listing_the_file_is_unchanged() {
    let doc = "# 2024\n\nsomething mentions 2024-06-01.gmi here\n";
    let r = upsert_archive(Some(doc), "# 2024", "2024-06-01.gmi", "=> new");
    assert_eq!(r, doc);
}

#[test]
fn archive_grows_at_the_top() {
    let doc = "# 2024\n\n=> 2024-05-01.gmi 2024-05-01 (Old)\n";
    let r = upsert_archive(Some(doc), "# 2024", "2024-06-01.gmi", "=> 2024-06-01.gmi 2024-06-01 (New)");
    assert_eq!(r, "# 2024\n\n=> 2024-06-01.gmi 2024-06-01 (New)\n=> 2024-05-01.gmi 2024-05-01 (Old)");
}

#[test]
fn archive_without_entries_is_rewritten() {
    let r = upsert_archive(Some("# 2024\n\n"), "# 2024", "2024-06-01.gmi", "=> e");
    assert_eq!(r, "# 2024\n\n=> e");
    let r = upsert_archive(Some(""), "# 2024", "2024-06-01.gmi", "=> e");
    assert_eq!(r, "# 2024\n\n=> e");
}

#[test]
fn archive_without_heading_is_rewritten() {
    let r = upsert_archive(Some("junk\n\n=> x\n=> y"), "# 2024", "2024-06-01.gmi", "=> e");
    assert_eq!(r, "# 2024\n\n=> e");
}

#[test]
fn homepage_is_created_when_absent() {
    assert_eq!(upsert_homepage(None, HEADING, "=> e"), "## Latest notes\n\n=> e");
}

#[test]
fn homepage_without_heading_is_replaced() {
    let r = upsert_homepage(Some("# My site\n\nsome old text\n"), HEADING, "=> e");
    assert_eq!(r, "## Latest notes\n\n=> e");
    let r = upsert_homepage(Some(""), HEADING, "=> e");
    assert_eq!(r, "## Latest notes\n\n=> e");
}

#[test]
fn homepage_without_heading_is_replaced_even_when_it_holds_the_entry() {
    let r = upsert_homepage(Some("=> e"), "## H", "=> e");
    assert_eq!(r, "## H\n\n=> e");
    assert_eq!(upsert_homepage(Some(&r), "## H", "=> e"), r);
}

#[test]
fn homepage_listing_the_entry_is_unchanged() {
    let doc = "## Latest notes\n\n=> e\n";
    assert_eq!(upsert_homepage(Some(doc), HEADING, "=> e"), doc);
}

#[test]
fn homepage_window_keeps_five_entries() {
    let doc = "# Site\n\n## Latest notes\n\n=> a\n=> b\n=> c\n=> d\n=> e\n\n## More\nx\n";
    let r = upsert_homepage(Some(doc), HEADING, "=> new");
    assert_eq!(r, "# Site\n\n## Latest notes\n\n=> new\n=> a\n=> b\n=> c\n=> d\n\n## More\nx");
}

#[test]
fn homepage_short_window_drops_nothing() {
    let doc = "## Latest notes\n\n=> a\n=> b";
    let r = upsert_homepage(Some(doc), HEADING, "=> new");
    assert_eq!(r, "## Latest notes\n\n=> new\n=> a\n=> b");
    let r = upsert_homepage(Some("## Latest notes"), HEADING, "=> new");
    assert_eq!(r, "## Latest notes\n\n=> new");
}

#[test]
fn updating_twice_changes_nothing() {
    let ae = archive_entry("2024-06-01.gmi", "T");
    let he = home_entry("2024", "2024-06-01.gmi", "T");
    let a0 = "# 2024\n\n=> 2024-05-01.gmi 2024-05-01 (Old)";
    let h0 = "## Latest notes\n\n=> a\n=> b\n=> c\n=> d\n=> e\nfooter";
    let a1 = upsert_archive(Some(a0), "# 2024", "2024-06-01.gmi", &ae);
    let h1 = upsert_homepage(Some(h0), HEADING, &he);
    assert_ne!(a1, a0);
    assert_ne!(h1, h0);
    assert_eq!(upsert_archive(Some(&a1), "# 2024", "2024-06-01.gmi", &ae), a1);
    assert_eq!(upsert_homepage(Some(&h1), HEADING, &he), h1);
}

#[test]
fn fresh_document_layout() {
    assert_eq!(fresh_document("# 2024", "=> x"), "# 2024\n\n=> x");
}

#[test]
fn substring_search() {
    assert!(contains_str("abcdef", "cde"));
    assert!(contains_str("abc", ""));
    assert!(contains_str("abc", "abc"));
    assert!(!contains_str("abc", "abcd"));
    assert!(!contains_str("abc", "acb"));
    assert!(contains_str("héllo wörld", "ö"));
}

#[test]
fn lines_split_like_std() {
    for s in ["", "a", "a\n", "a\nb", "a\n\nb\n", "\n", "\n\n", "x\ny\nz", "a\r\nb\r\n", "x\ry\n", "\r\n"] {
        let expected: Vec<String> = s.lines().map(|l| l.to_string()).collect();
        assert_eq!(split_lines(s), expected, "input {:?}", s);
    }
}

#[test]
fn crlf_documents_are_updated() {
    let r = upsert_archive(Some("# 2024\r\n\r\n=> old\r\n"), "# 2024", "k.gmi", "=> new");
    assert_eq!(r, "# 2024\n\n=> new\n=> old");
}

#[test]
fn lines_join_with_newlines() {
    let v: Vec<String> = vec!["a".to_string(), "".to_string(), "b".to_string()];
    assert_eq!(join_lines_exec(&v), "a\n\nb");
    assert_eq!(join_lines_exec(&Vec::new()), "");
}
