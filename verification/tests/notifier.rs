use hnotify::comments_checker::summarize;
use hnotify::notify::{filter_comments, process_cycle};
use hnotify::store::FingerprintStore;
use hnotify::text::get_first_10_words;
use hnotify::Comment;

fn comment(author: &str, body: &str) -> Comment {
    Comment {
        hnuser: author.to_string(),
        title: "a title".to_string(),
        commtext: body.to_string(),
    }
}

#[test]
fn first_ten_words_of_long_text() {
    assert_eq!(
        get_first_10_words("one two three four five six seven eight nine ten eleven twelve"),
        "one two three four five six seven eight nine ten"
    );
}

#[test]
fn short_text_is_kept_whole() {
    assert_eq!(get_first_10_words("just a few words"), "just a few words");
}

#[test]
fn whitespace_runs_collapse_to_single_spaces() {
    assert_eq!(get_first_10_words("  a \t b\n c  "), "a b c");
}

#[test]
fn empty_text_yields_empty() {
    assert_eq!(get_first_10_words(""), "");
}

#[test]
fn no_records_means_no_message() {
    assert_eq!(summarize(&Vec::new()), None);
}

#[test]
fn single_record_message_names_the_author() {
    let records = vec![comment(
        "bob",
        "one two three four five six seven eight nine ten eleven",
    )];
    assert_eq!(
        summarize(&records),
        Some("bob: one two three four five six seven eight nine ten".to_string())
    );
}

#[test]
fn multiple_records_message_counts_them() {
    let records = vec![
        comment("ann", "first record body with its own words in here now extra"),
        comment("ben", "second record body"),
    ];
    assert_eq!(
        summarize(&records),
        Some("2 new comments: first record body with its own words in here now".to_string())
    );
}

#[test]
fn self_authored_records_are_filtered_out() {
    let comments = vec![
        comment("me", "my own comment"),
        comment("ann", "a stranger's comment"),
        comment("me", "another of mine"),
    ];
    let filtered = filter_comments(&comments, "me");
    assert_eq!(filtered.len(), 1);
    assert_eq!(filtered[0].hnuser, "ann");
}

#[test]
fn failed_fetch_is_a_noop_cycle() {
    let mut store = FingerprintStore::new();
    store.insert("existing".to_string()).expect("insert");
    let message = process_cycle(None, "me", &mut store);
    assert_eq!(message, None);
    assert_eq!(store.len(), 1);
}

#[test]
fn cycle_after_failed_fetch_still_detects() {
    let html = "<html><body>\
        <span class=\"age\" title=\"t1\"><a>x</a></span>\
        <div class=\"comment\"><span class=\"commtext c00\">fresh words here reply</span></div>\
        <a class=\"hnuser\">ann</a>\
        </body></html>";
    let mut store = FingerprintStore::new();
    assert_eq!(process_cycle(None, "me", &mut store), None);
    let message = process_cycle(Some(html.to_string()), "me", &mut store);
    assert_eq!(message, Some("ann: fresh words here".to_string()));
    assert_eq!(store.len(), 1);
}

#[test]
fn second_cycle_over_same_page_is_quiet() {
    let html = "<html><body>\
        <span class=\"age\" title=\"t1\"><a>x</a></span>\
        <div class=\"comment\"><span class=\"commtext c00\">seen once already</span></div>\
        <a class=\"hnuser\">ann</a>\
        </body></html>";
    let mut store = FingerprintStore::new();
    let first = process_cycle(Some(html.to_string()), "me", &mut store);
    assert_eq!(first, Some("ann: seen once already".to_string()));
    let second = process_cycle(Some(html.to_string()), "me", &mut store);
    assert_eq!(second, None);
    assert_eq!(store.len(), 1);
}

#[test]
fn cycle_ignores_own_comments() {
    let html = "<html><body>\
        <span class=\"age\" title=\"t1\"><a>x</a></span>\
        <div class=\"comment\"><span class=\"commtext c00\">talking to myself</span></div>\
        <a class=\"hnuser\">me</a>\
        </body></html>";
    let mut store = FingerprintStore::new();
    let message = process_cycle(Some(html.to_string()), "me", &mut store);
    assert_eq!(message, None);
    assert_eq!(store.len(), 0);
}
