//! One polling cycle's decisions: filter out self-authored records, run the
//! dedup engine, and produce the summary message. The surrounding loop —
//! fetching, sleeping and delivering — performs I/O and lives outside this
//! library; it hands each cycle's fetch outcome in and carries the message
//! out.

use vstd::prelude::*;

use crate::comments_checker::{
    check_for_new_comments, fingerprints_of, new_records_spec, summarize, summarize_spec,
};
use crate::hnscraper::{extracted_comments, parse_html, Comment, CommentView};
use crate::store::{recent_spec, FingerprintStore};

verus! {

/// The records of `comments` not authored by `hn_username`, in order.
pub open spec fn filter_spec(comments: Seq<CommentView>, hn_username: Seq<char>) -> Seq<
    CommentView,
> {
    comments.filter(|c: CommentView| c.hnuser != hn_username)
}

/// Keeps the comments whose author differs from the configured identity,
/// so the daemon never notifies about its own comments.
pub fn filter_comments(comments: &Vec<Comment>, hn_username: &str) -> (r: Vec<Comment>)
    ensures
        r.deep_view() == filter_spec(comments.deep_view(), hn_username@),
{
    let ghost pred = |c: CommentView| c.hnuser != hn_username@;
    let own_name = String::from_str(hn_username);
    let mut filtered_comments: Vec<Comment> = Vec::new();
    let mut i: usize = 0;
    proof {
        reveal(Seq::filter);
        assert(comments.deep_view().take(0) =~= Seq::<CommentView>::empty());
    }
    while i < comments.len()
        invariant
            0 <= i <= comments@.len(),
            comments.deep_view().len() == comments@.len(),
            own_name@ == hn_username@,
            pred == (|c: CommentView| c.hnuser != hn_username@),
            filtered_comments.deep_view() =~= comments.deep_view().take(i as int).filter(pred),
        decreases comments@.len() - i,
    {
        let comment = &comments[i];
        proof {
            reveal(Seq::filter);
            assert(comments.deep_view().take(i + 1).drop_last() =~= comments.deep_view().take(
                i as int,
            ));
            assert(comments.deep_view().take(i + 1).last() == comments.deep_view()[i as int]);
        }
        if !comment.hnuser.eq(&own_name) {
            filtered_comments.push(comment.clone());
        }
        i = i + 1;
    }
    proof {
        assert(comments.deep_view().take(comments@.len() as int) =~= comments.deep_view());
    }
    filtered_comments
}

/// The store contents after one cycle: unchanged on a fetch failure;
/// otherwise the fingerprints of the cycle's new records are appended.
pub open spec fn cycle_store_spec(
    store: Seq<Seq<char>>,
    fetched: Option<Seq<char>>,
    hn_username: Seq<char>,
) -> Seq<Seq<char>> {
    match fetched {
        None => store,
        Some(html) => {
            let filtered = filter_spec(extracted_comments(html), hn_username);
            let news = new_records_spec(filtered, recent_spec(store, filtered.len() as int));
            store + fingerprints_of(news)
        },
    }
}

/// The notification message of one cycle: none on a fetch failure;
/// otherwise the summary of the cycle's new records.
pub open spec fn cycle_message_spec(
    store: Seq<Seq<char>>,
    fetched: Option<Seq<char>>,
    hn_username: Seq<char>,
) -> Option<Seq<char>> {
    match fetched {
        None => None,
        Some(html) => {
            let filtered = filter_spec(extracted_comments(html), hn_username);
            let news = new_records_spec(filtered, recent_spec(store, filtered.len() as int));
            summarize_spec(news)
        },
    }
}

/// Runs the decisions of one polling cycle over the fetch outcome:
/// extraction, self-filtering, dedup, and summary formatting. A failed
/// fetch (`None`) is a no-op for the cycle; it leaves the store untouched
/// and raises no message.
pub fn process_cycle(
    fetched_html: Option<String>,
    hn_username: &str,
    store: &mut FingerprintStore,
) -> (r: Option<String>)
    ensures
        final(store)@ == cycle_store_spec(old(store)@, fetched_html.deep_view(), hn_username@),
        r.deep_view() == cycle_message_spec(old(store)@, fetched_html.deep_view(), hn_username@),
{
    match fetched_html {
        None => None,
        Some(html) => {
            let comments = parse_html(html.as_str());
            let filtered = filter_comments(&comments, hn_username);
            match check_for_new_comments(&filtered, store) {
                Ok(new_comments) => summarize(&new_comments),
                Err(_) => None,
            }
        },
    }
}

/// Self-filtering: no record authored by the configured identity ever
/// reaches the dedup engine — every record in the filtered sequence, for
/// any input, carries a different author.
pub proof fn lemma_self_filtering(comments: Seq<CommentView>, hn_username: Seq<char>)
    ensures
        forall|i: int|
            0 <= i < filter_spec(comments, hn_username).len() ==> #[trigger] filter_spec(
                comments,
                hn_username,
            )[i].hnuser != hn_username,
{
    assert forall|i: int| 0 <= i < filter_spec(comments, hn_username).len() implies #[trigger]
    filter_spec(comments, hn_username)[i].hnuser != hn_username by {
        comments.lemma_filter_pred(|c: CommentView| c.hnuser != hn_username, i);
    }
}

/// Loop resilience: a failed fetch on one cycle leaves the store exactly as
/// it was, so the following cycle behaves as if the failure had never
/// happened — its store contents and its message are those of running it
/// directly.
pub proof fn lemma_failed_cycle_is_noop(
    store: Seq<Seq<char>>,
    next_fetched: Option<Seq<char>>,
    hn_username: Seq<char>,
)
    ensures
        cycle_store_spec(store, None, hn_username) == store,
        cycle_message_spec(store, None, hn_username) is None,
        cycle_store_spec(
            cycle_store_spec(store, None, hn_username),
            next_fetched,
            hn_username,
        ) == cycle_store_spec(store, next_fetched, hn_username),
        cycle_message_spec(
            cycle_store_spec(store, None, hn_username),
            next_fetched,
            hn_username,
        ) == cycle_message_spec(store, next_fetched, hn_username),
{
}

} // verus!
