//! The dedup engine and the notification formatter: fingerprints candidate
//! comments, keeps exactly those never seen before, records their
//! fingerprints, and renders the human-readable summary of the delta.

use vstd::prelude::*;

use crate::hnscraper::{Comment, CommentView};
use crate::store::{recent_spec, FingerprintStore, StoreError};
use crate::text::{
    dec_of, first_words_spec, get_first_10_words, hex_of, is_wschar, lemma_trim_noop, reply_suffix,
    strip_reply_spec, trim_end_spec, trim_spec, trim_start_spec, u64_to_string,
};

verus! {

/// What the SHA-256 digest of a string's UTF-8 bytes is: a function of the
/// input characters alone, the same in every process and on every machine.
pub uninterp spec fn sha256_of(input: Seq<char>) -> Seq<u8>;

/// Relies on ring's `digest::digest` with `digest::SHA256`: the digest is a
/// deterministic function of the input bytes, and a SHA-256 digest is 32
/// bytes long.
#[verifier::external_body]
fn sha256_digest(input: &str) -> (r: Vec<u8>)
    ensures
        r@ == sha256_of(input@),
        r@.len() == 32,
{
    let digest = ring::digest::digest(&ring::digest::SHA256, input.as_bytes());
    digest.as_ref().to_vec()
}

/// Relies on hex's `encode`: each byte becomes two lowercase hexadecimal
/// digits, high nibble first, in input order.
#[verifier::external_body]
pub(crate) fn hex_encode(bytes: &Vec<u8>) -> (r: String)
    ensures
        r@ == hex_of(bytes@),
{
    hex::encode(bytes)
}

/// The fingerprint of a comment body: the hex-encoded SHA-256 digest of the
/// body text.
pub open spec fn fingerprint_of(input: Seq<char>) -> Seq<char> {
    hex_of(sha256_of(input))
}

/// Computes the fingerprint of a string: its SHA-256 digest, hex-encoded.
/// A fingerprint is always 64 characters: two hex digits for each of the
/// digest's 32 bytes.
pub fn calculate_sha256_hash(input: &str) -> (r: String)
    ensures
        r@ == fingerprint_of(input@),
        r@.len() == 64,
{
    let digest = sha256_digest(input);
    proof {
        crate::text::lemma_hex_of_len(digest@);
    }
    hex_encode(&digest)
}

/// Fingerprinting is a pure function of the body text: hashing the same
/// body twice — in the same cycle or in different ones — yields the same
/// fingerprint.
pub proof fn lemma_fingerprint_deterministic(first: Seq<char>, second: Seq<char>)
    requires
        first == second,
    ensures
        fingerprint_of(first) == fingerprint_of(second),
{
}

/// A body that reaches the pipeline with the site's trailing " reply"
/// chrome is fingerprinted identically to the bare body: once both are
/// normalized, the suffix has no effect. `s` here is a body already in
/// normalized form — trimmed, and not itself ending in the marker.
pub proof fn lemma_reply_suffix_fingerprint(s: Seq<char>)
    requires
        s.len() == 0 || (!is_wschar(s[0]) && !is_wschar(s[s.len() - 1])),
        s.len() >= 5 ==> s.subrange(s.len() - 5, s.len() as int) != reply_suffix(),
    ensures
        strip_reply_spec(s) == s,
        strip_reply_spec(s + " reply"@) == s,
        fingerprint_of(strip_reply_spec(s + " reply"@)) == fingerprint_of(strip_reply_spec(s)),
{
    let sp = " reply"@;
    reveal_strlit(" reply");
    assert(sp.len() == 6);
    assert(sp[0] == ' ' && sp[1] == 'r' && sp[2] == 'e' && sp[3] == 'p' && sp[4] == 'l' && sp[5]
        == 'y');
    let t0 = s + sp;
    lemma_trim_noop(s);
    assert(strip_reply_spec(s) == s);
    if s.len() == 0 {
        assert(t0 =~= sp);
        let r5 = sp.subrange(1, 6);
        assert(r5 =~= reply_suffix());
        assert(trim_start_spec(sp) == trim_start_spec(sp.subrange(1, sp.len() as int)));
        assert(sp.subrange(1, sp.len() as int) == r5);
        assert(trim_start_spec(r5) == r5);
        assert(trim_end_spec(r5) == r5);
        assert(trim_spec(t0) == r5);
        assert(r5.subrange(r5.len() - 5, r5.len() as int) =~= reply_suffix());
        assert(r5.subrange(0, 0) =~= Seq::<char>::empty());
        assert(trim_start_spec(Seq::<char>::empty()) == Seq::<char>::empty());
        assert(trim_end_spec(Seq::<char>::empty()) == Seq::<char>::empty());
        assert(strip_reply_spec(t0) == Seq::<char>::empty());
        assert(strip_reply_spec(t0) == s);
    } else {
        let n = t0.len() as int;
        assert(t0[0] == s[0]);
        assert(t0[n - 1] == sp[5]);
        assert(trim_start_spec(t0) == t0);
        assert(trim_end_spec(t0) == t0);
        assert(trim_spec(t0) == t0);
        assert(t0.subrange(n - 5, n) =~= reply_suffix());
        let u = t0.subrange(0, n - 5);
        assert(u =~= s + seq![' ']);
        assert(u[0] == s[0]);
        assert(trim_start_spec(u) == u);
        assert(u[u.len() - 1] == ' ');
        assert(trim_end_spec(u) == trim_end_spec(u.subrange(0, u.len() - 1)));
        assert(u.subrange(0, u.len() - 1) =~= s);
        assert(trim_end_spec(s) == s);
        assert(trim_spec(u) == s);
        assert(strip_reply_spec(t0) == s);
    }
}

/// The subset of `candidates`, in order, whose fingerprints do not occur in
/// `window`. The window is fixed for the whole batch: a body that repeats
/// within one batch is classified new each time.
pub open spec fn new_records_spec(candidates: Seq<CommentView>, window: Seq<Seq<char>>) -> Seq<
    CommentView,
> {
    candidates.filter(|c: CommentView| !window.contains(fingerprint_of(c.commtext)))
}

/// The fingerprints of the given records, in order.
pub open spec fn fingerprints_of(records: Seq<CommentView>) -> Seq<Seq<char>> {
    records.map_values(|c: CommentView| fingerprint_of(c.commtext))
}

/// Dedup correctness: with the store holding the fingerprints of `a` and
/// `b`, in that order, the candidate batch `[a, b, c]` yields exactly
/// `[c]`, the store gains exactly `c`'s fingerprint, and the single most
/// recent entry afterwards is `c`'s fingerprint. The premise that `c`'s
/// fingerprint differs from the other two is needed because the digest is
/// an uninterpreted name: distinct bodies do not have provably distinct
/// fingerprints.
pub proof fn lemma_dedup_correctness(
    a: CommentView,
    b: CommentView,
    c: CommentView,
    store: Seq<Seq<char>>,
)
    requires
        store == seq![fingerprint_of(a.commtext), fingerprint_of(b.commtext)],
        fingerprint_of(c.commtext) != fingerprint_of(a.commtext),
        fingerprint_of(c.commtext) != fingerprint_of(b.commtext),
    ensures
        new_records_spec(seq![a, b, c], recent_spec(store, 3)) == seq![c],
        store + fingerprints_of(new_records_spec(seq![a, b, c], recent_spec(store, 3))) == seq![
            fingerprint_of(a.commtext),
            fingerprint_of(b.commtext),
            fingerprint_of(c.commtext),
        ],
        recent_spec(
            store + fingerprints_of(new_records_spec(seq![a, b, c], recent_spec(store, 3))),
            1,
        ) == seq![fingerprint_of(c.commtext)],
{
    let fa = fingerprint_of(a.commtext);
    let fb = fingerprint_of(b.commtext);
    let fc = fingerprint_of(c.commtext);
    let window = recent_spec(store, 3);
    assert(window.len() == 2);
    assert(window[0] == fb);
    assert(window[1] == fa);
    assert(window.contains(fa));
    assert(window.contains(fb));
    assert(!window.contains(fc)) by {
        if window.contains(fc) {
            let i = choose|i: int| 0 <= i < window.len() && window[i] == fc;
            assert(i == 0 || i == 1);
        }
    }
    let cands = seq![a, b, c];
    reveal_with_fuel(Seq::filter, 5);
    assert(seq![a].drop_last() =~= Seq::<CommentView>::empty());
    assert(new_records_spec(seq![a], window) =~= Seq::<CommentView>::empty());
    assert(seq![a, b].drop_last() =~= seq![a]);
    assert(new_records_spec(seq![a, b], window) =~= Seq::<CommentView>::empty());
    assert(cands.drop_last() =~= seq![a, b]);
    assert(new_records_spec(cands, window) =~= seq![c]);
    assert(fingerprints_of(seq![c]) =~= seq![fc]);
    let after = store + fingerprints_of(new_records_spec(cands, window));
    assert(after =~= seq![fa, fb, fc]);
    assert(recent_spec(after, 1) =~= seq![fc]);
}

/// Tests whether `v` holds a string equal to `s`.
fn contains_string(v: &Vec<String>, s: &String) -> (r: bool)
    ensures
        r == v.deep_view().contains(s@),
{
    let mut i: usize = 0;
    while i < v.len()
        invariant
            0 <= i <= v@.len(),
            forall|j: int| 0 <= j < i ==> v.deep_view()[j] != s@,
        decreases v@.len() - i,
    {
        if v[i].eq(s) {
            assert(v.deep_view()[i as int] == s@);
            return true;
        }
        i = i + 1;
    }
    false
}

/// Classifies the candidate batch against the `k` most recent fingerprints
/// (`k` = batch size), returns the records never seen before, in input
/// order, and records each new fingerprint immediately, one insert per new
/// record. The lookup window is taken once, before the batch.
pub fn check_for_new_comments(filtered_comments: &Vec<Comment>, store: &mut FingerprintStore) -> (r:
    Result<Vec<Comment>, StoreError>)
    ensures
        r is Ok,
        r matches Ok(new_comments) ==> {
            let news = new_records_spec(
                filtered_comments.deep_view(),
                recent_spec(old(store)@, filtered_comments.deep_view().len() as int),
            );
            new_comments.deep_view() == news && final(store)@ == old(store)@ + fingerprints_of(
                news,
            )
        },
{
    let num_hashes_to_retrieve = filtered_comments.len();
    let existing_hashes = store.recent(num_hashes_to_retrieve);
    let ghost window = recent_spec(old(store)@, filtered_comments.deep_view().len() as int);
    let ghost pred = |c: CommentView| !window.contains(fingerprint_of(c.commtext));
    let mut new_comments: Vec<Comment> = Vec::new();
    let mut i: usize = 0;
    proof {
        assert(filtered_comments.deep_view().take(0) =~= Seq::<CommentView>::empty());
        reveal(Seq::filter);
    }
    while i < filtered_comments.len()
        invariant
            0 <= i <= filtered_comments@.len(),
            filtered_comments.deep_view().len() == filtered_comments@.len(),
            window == recent_spec(old(store)@, filtered_comments.deep_view().len() as int),
            pred == (|c: CommentView| !window.contains(fingerprint_of(c.commtext))),
            existing_hashes.deep_view() == window,
            new_comments.deep_view() =~= filtered_comments.deep_view().take(i as int).filter(pred),
            store@ == old(store)@ + fingerprints_of(
                filtered_comments.deep_view().take(i as int).filter(pred),
            ),
        decreases filtered_comments@.len() - i,
    {
        let comment = &filtered_comments[i];
        let hash = calculate_sha256_hash(comment.commtext.as_str());
        let ghost prefix = filtered_comments.deep_view().take(i as int);
        let ghost cv = filtered_comments.deep_view()[i as int];
        proof {
            reveal(Seq::filter);
            assert(filtered_comments.deep_view().take(i + 1).drop_last() =~= prefix);
            assert(filtered_comments.deep_view().take(i + 1).last() == cv);
            assert(hash@ == fingerprint_of(cv.commtext));
        }
        if !contains_string(&existing_hashes, &hash) {
            new_comments.push(comment.clone());
            let ghost before = store@;
            let insert_result = store.insert(hash);
            match insert_result {
                Ok(()) => (),
                Err(e) => {
                    return Err(e);
                },
            }
            proof {
                let news = filtered_comments.deep_view().take(i + 1).filter(pred);
                assert(news =~= prefix.filter(pred).push(cv));
                assert(fingerprints_of(news) =~= fingerprints_of(prefix.filter(pred)).push(
                    fingerprint_of(cv.commtext),
                ));
                assert(store@ =~= old(store)@ + fingerprints_of(news));
            }
        } else {
            proof {
                let news = filtered_comments.deep_view().take(i + 1).filter(pred);
                assert(news =~= prefix.filter(pred));
                assert(fingerprints_of(news) =~= fingerprints_of(prefix.filter(pred)));
            }
        }
        i = i + 1;
    }
    proof {
        assert(filtered_comments.deep_view().take(filtered_comments@.len() as int)
            =~= filtered_comments.deep_view());
    }
    Ok(new_comments)
}

/// The notification message summarizing a batch of new records: nothing for
/// an empty batch; author and the first ten words of the body for one
/// record; the count and the first ten words of the first record's body for
/// more.
pub open spec fn summarize_spec(records: Seq<CommentView>) -> Option<Seq<char>> {
    if records.len() == 0 {
        None
    } else if records.len() == 1 {
        Some(records[0].hnuser + ": "@ + first_words_spec(records[0].commtext, 10))
    } else {
        Some(
            dec_of(records.len() as int) + " new comments: "@ + first_words_spec(
                records[0].commtext,
                10,
            ),
        )
    }
}

/// Formats the summary message for a batch of new records; `None` means no
/// notification is raised. Only the first record's text is surfaced even
/// when several are new.
pub fn summarize(new_comments: &Vec<Comment>) -> (r: Option<String>)
    ensures
        r.deep_view() == summarize_spec(new_comments.deep_view()),
{
    if new_comments.len() == 0 {
        None
    } else if new_comments.len() == 1 {
        let comment = &new_comments[0];
        let mut message = comment.hnuser.clone();
        message.append(": ");
        let words = get_first_10_words(comment.commtext.as_str());
        message.append(words.as_str());
        Some(message)
    } else {
        let comment = &new_comments[0];
        let mut message = u64_to_string(new_comments.len() as u64);
        message.append(" new comments: ");
        let words = get_first_10_words(comment.commtext.as_str());
        message.append(words.as_str());
        Some(message)
    }
}

} // verus!
