use hnotify::hnscraper::{parse_html, remove_reply_suffix};

#[test]
fn strips_trailing_reply_token() {
    assert_eq!(remove_reply_suffix("hello world reply"), "hello world");
}

#[test]
fn trims_surrounding_whitespace() {
    assert_eq!(remove_reply_suffix("  spaced out  "), "spaced out");
}

#[test]
fn bare_reply_becomes_empty() {
    assert_eq!(remove_reply_suffix("reply"), "");
}

#[test]
fn text_without_suffix_is_kept() {
    assert_eq!(remove_reply_suffix("no suffix here"), "no suffix here");
}

#[test]
fn reply_stripped_even_without_preceding_space() {
    assert_eq!(remove_reply_suffix("xreply"), "x");
}

#[test]
fn suffix_stripped_once_only() {
    assert_eq!(remove_reply_suffix("reply reply"), "reply");
}

#[test]
fn extracts_well_formed_rows() {
    let html = "<html><body>\
        <span class=\"age\" title=\"2024-01-01T00:00:00\"><a>1 hour ago</a></span>\
        <div class=\"comment\"><span class=\"commtext c00\">first body text reply</span></div>\
        <a class=\"hnuser\">alice</a>\
        <span class=\"age\" title=\"2024-01-02T00:00:00\"><a>2 hours ago</a></span>\
        <div class=\"comment\"><span class=\"commtext c00\">second body text</span></div>\
        <a class=\"hnuser\">bob</a>\
        </body></html>";
    let comments = parse_html(html);
    assert_eq!(comments.len(), 2);
    assert_eq!(comments[0].hnuser, "alice");
    assert_eq!(comments[0].title, "2024-01-01T00:00:00");
    assert_eq!(comments[0].commtext, "first body text");
    assert_eq!(comments[1].hnuser, "bob");
    assert_eq!(comments[1].title, "2024-01-02T00:00:00");
    assert_eq!(comments[1].commtext, "second body text");
}

#[test]
fn row_missing_author_marker_is_skipped() {
    // Three otherwise-complete rows; the third lacks its author anchor, so
    // only two records come out, and no error is raised.
    let html = "<html><body>\
        <span class=\"age\" title=\"t1\"><a>x</a></span>\
        <div class=\"comment\"><span class=\"commtext c00\">body one</span></div>\
        <a class=\"hnuser\">alice</a>\
        <span class=\"age\" title=\"t2\"><a>x</a></span>\
        <div class=\"comment\"><span class=\"commtext c00\">body two</span></div>\
        <a class=\"hnuser\">bob</a>\
        <span class=\"age\" title=\"t3\"><a>x</a></span>\
        <div class=\"comment\"><span class=\"commtext c00\">body three</span></div>\
        </body></html>";
    let comments = parse_html(html);
    assert_eq!(comments.len(), 2);
    assert_eq!(comments[0].commtext, "body one");
    assert_eq!(comments[1].commtext, "body two");
}

#[test]
fn document_without_structure_yields_empty() {
    let comments = parse_html("<html><body><p>nothing to see</p></body></html>");
    assert_eq!(comments.len(), 0);
}
