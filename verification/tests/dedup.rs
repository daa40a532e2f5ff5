use hnotify::comments_checker::{calculate_sha256_hash, check_for_new_comments};
use hnotify::store::FingerprintStore;
use hnotify::utils::HnComments;
use hnotify::Comment;

fn comment(author: &str, body: &str) -> Comment {
    Comment {
        hnuser: author.to_string(),
        title: "a title".to_string(),
        commtext: body.to_string(),
    }
}

#[test]
fn sha256_of_empty_string() {
    assert_eq!(
        calculate_sha256_hash(""),
        "e3b0c44298fc1c149afbf4c8996fb92427ae41e4649b934ca495991b7852b855"
    );
}

#[test]
fn sha256_of_abc() {
    assert_eq!(
        calculate_sha256_hash("abc"),
        "ba7816bf8f01cfea414140de5dae2223b00361a396177a9cb410ff61f20015ad"
    );
}

#[test]
fn hashing_twice_is_identical() {
    let first = calculate_sha256_hash("some comment body");
    let second = calculate_sha256_hash("some comment body");
    assert_eq!(first, second);
}

#[test]
fn stripped_reply_suffix_hashes_identically() {
    let with_suffix = hnotify::hnscraper::remove_reply_suffix("hello there reply");
    let without = hnotify::hnscraper::remove_reply_suffix("hello there");
    assert_eq!(
        calculate_sha256_hash(&with_suffix),
        calculate_sha256_hash(&without)
    );
}

#[test]
fn returns_only_unseen_records_and_persists_them() {
    let a = comment("ann", "body of record a");
    let b = comment("ben", "body of record b");
    let c = comment("cid", "body of record c");
    let mut store = FingerprintStore::new();
    store
        .insert(calculate_sha256_hash(&a.commtext))
        .expect("insert");
    store
        .insert(calculate_sha256_hash(&b.commtext))
        .expect("insert");
    let candidates = vec![a, b, c.clone()];
    let new_comments = check_for_new_comments(&candidates, &mut store).expect("dedup");
    assert_eq!(new_comments.len(), 1);
    assert_eq!(new_comments[0].commtext, "body of record c");
    let latest = store.recent(1);
    assert_eq!(latest.len(), 1);
    assert_eq!(latest[0], calculate_sha256_hash(&c.commtext));
}

#[test]
fn empty_batch_changes_nothing() {
    let mut store = FingerprintStore::new();
    store
        .insert(calculate_sha256_hash("already there"))
        .expect("insert");
    let new_comments = check_for_new_comments(&Vec::new(), &mut store).expect("dedup");
    assert_eq!(new_comments.len(), 0);
    assert_eq!(store.len(), 1);
}

#[test]
fn repeated_body_in_one_batch_is_recorded_twice() {
    // The lookup window is fixed before the batch, so a body repeated
    // within one batch is classified new each time.
    let mut store = FingerprintStore::new();
    let candidates = vec![comment("ann", "same body"), comment("ben", "same body")];
    let new_comments = check_for_new_comments(&candidates, &mut store).expect("dedup");
    assert_eq!(new_comments.len(), 2);
    assert_eq!(store.len(), 2);
}

#[test]
fn window_is_bounded_by_batch_size() {
    // Only the k most recent fingerprints are consulted, k = batch size: a
    // fingerprint buried deeper than the window is classified new again.
    let mut store = FingerprintStore::new();
    store
        .insert(calculate_sha256_hash("old body"))
        .expect("insert");
    store
        .insert(calculate_sha256_hash("newer one"))
        .expect("insert");
    store
        .insert(calculate_sha256_hash("newer two"))
        .expect("insert");
    let candidates = vec![comment("ann", "old body")];
    let new_comments = check_for_new_comments(&candidates, &mut store).expect("dedup");
    assert_eq!(new_comments.len(), 1);
    assert_eq!(store.len(), 4);
}

#[test]
fn recent_with_excess_count_returns_all() {
    let mut store = FingerprintStore::new();
    store.insert("fp-one".to_string()).expect("insert");
    store.insert("fp-two".to_string()).expect("insert");
    let recent = store.recent(10);
    assert_eq!(recent, vec!["fp-two".to_string(), "fp-one".to_string()]);
}

#[test]
fn hn_comments_row_carries_hash_and_timestamp() {
    let row = HnComments::new(5, "abc");
    assert_eq!(row.timestamp(), 5);
    assert_eq!(
        row.hash_sha().as_str(),
        "ba7816bf8f01cfea414140de5dae2223b00361a396177a9cb410ff61f20015ad"
    );
}
