use vstd::prelude::*;

use crate::text::{reply_suffix, strip_reply_spec, trim_chars};

verus! {

/// One comment record extracted from the activity page: who wrote it, the
/// title of the context it appeared under, and the comment text itself.
pub struct Comment {
    pub hnuser: String,
    pub title: String,
    pub commtext: String,
}

/// The mathematical value of a `Comment`: its three fields as character
/// sequences.
pub ghost struct CommentView {
    pub hnuser: Seq<char>,
    pub title: Seq<char>,
    pub commtext: Seq<char>,
}

impl View for Comment {
    type V = CommentView;

    open spec fn view(&self) -> CommentView {
        CommentView { hnuser: self.hnuser@, title: self.title@, commtext: self.commtext@ }
    }
}

impl DeepView for Comment {
    type V = CommentView;

    open spec fn deep_view(&self) -> CommentView {
        self@
    }
}

impl Clone for Comment {
    fn clone(&self) -> (r: Self)
        ensures
            r@ == self@,
    {
        Comment {
            hnuser: self.hnuser.clone(),
            title: self.title.clone(),
            commtext: self.commtext.clone(),
        }
    }
}

/// Normalizes an extracted comment body: trims surrounding whitespace and
/// drops one trailing "reply" token, the chrome the site's UI appends.
pub fn remove_reply_suffix(text: &str) -> (r: String)
    ensures
        r@ == strip_reply_spec(text@),
{
    let trimmed = trim_chars(text);
    let n = trimmed.unicode_len();
    if n >= 5 && trimmed.get_char(n - 5) == 'r' && trimmed.get_char(n - 4) == 'e'
        && trimmed.get_char(n - 3) == 'p' && trimmed.get_char(n - 2) == 'l' && trimmed.get_char(
        n - 1,
    ) == 'y' {
        proof {
            assert(trimmed@.subrange(n - 5, n as int) =~= reply_suffix());
        }
        let cut = trimmed.substring_char(0, n - 5);
        let stripped = trim_chars(cut);
        String::from_str(stripped)
    } else {
        proof {
            if n >= 5 && trimmed@.subrange(n - 5, n as int) == reply_suffix() {
                assert(trimmed@[n - 5] == reply_suffix()[0]);
                assert(trimmed@[n - 4] == reply_suffix()[1]);
                assert(trimmed@[n - 3] == reply_suffix()[2]);
                assert(trimmed@[n - 2] == reply_suffix()[3]);
                assert(trimmed@[n - 1] == reply_suffix()[4]);
            }
        }
        String::from_str(trimmed)
    }
}

/// What the attribute extraction returns: for each element of the document
/// matched by the selector, in document order, the value of the named
/// attribute (empty when the element lacks it).
pub uninterp spec fn attr_texts_of(html: Seq<char>, selector: Seq<char>, attr: Seq<char>) -> Seq<
    Seq<char>,
>;

/// What the text extraction returns: for each element of the document
/// matched by the selector, in document order, its concatenated text
/// content.
pub uninterp spec fn inner_texts_of(html: Seq<char>, selector: Seq<char>) -> Seq<Seq<char>>;

/// Relies on scraper's `Html::parse_document` and CSS selector matching:
/// for a fixed document, selector and attribute name, the matched elements,
/// their order, and their attribute values depend on those inputs alone.
/// A selector string that is not valid CSS matches nothing.
#[verifier::external_body]
fn select_attr_texts(html: &str, selector: &str, attr: &str) -> (r: Vec<String>)
    ensures
        r.deep_view() == attr_texts_of(html@, selector@, attr@),
{
    let document = scraper::Html::parse_document(html);
    match scraper::Selector::parse(selector) {
        Ok(sel) => document
            .select(&sel)
            .map(|e| e.value().attr(attr).unwrap_or_default().to_string())
            .collect(),
        Err(_) => Vec::new(),
    }
}

/// Relies on scraper's `Html::parse_document` and CSS selector matching:
/// for a fixed document and selector, the matched elements, their order and
/// their text content depend on those inputs alone. A selector string that
/// is not valid CSS matches nothing.
#[verifier::external_body]
fn select_inner_texts(html: &str, selector: &str) -> (r: Vec<String>)
    ensures
        r.deep_view() == inner_texts_of(html@, selector@),
{
    let document = scraper::Html::parse_document(html);
    match scraper::Selector::parse(selector) {
        Ok(sel) => document.select(&sel).map(|e| e.text().collect::<String>()).collect(),
        Err(_) => Vec::new(),
    }
}

/// The comment records extracted from `html`: the three per-row selections
/// are paired positionally in document order, rows missing one of the three
/// anchors fall off the end, and each body is normalized.
pub open spec fn extracted_comments(html: Seq<char>) -> Seq<CommentView> {
    let ts = attr_texts_of(html, "span.age[title]"@, "title"@);
    let cs = inner_texts_of(html, "div.comment span.commtext.c00:not(.reply)"@);
    let us = inner_texts_of(html, "a.hnuser"@);
    let n = min3(ts.len() as int, cs.len() as int, us.len() as int);
    Seq::new(
        n as nat,
        |i: int| CommentView { hnuser: us[i], title: ts[i], commtext: strip_reply_spec(cs[i]) },
    )
}

/// The least of three lengths.
pub open spec fn min3(a: int, b: int, c: int) -> int {
    if a <= b && a <= c {
        a
    } else if b <= c {
        b
    } else {
        c
    }
}

/// Extracts the ordered sequence of comment records from a raw HTML
/// document. Tolerates malformed markup: a row whose three anchors cannot
/// all be located is skipped; a document with no matching structure yields
/// an empty sequence.
pub fn parse_html(html: &str) -> (r: Vec<Comment>)
    ensures
        r.deep_view() == extracted_comments(html@),
{
    let titles = select_attr_texts(html, "span.age[title]", "title");
    let commtexts = select_inner_texts(html, "div.comment span.commtext.c00:not(.reply)");
    let hnusers = select_inner_texts(html, "a.hnuser");
    let mut n = titles.len();
    if commtexts.len() < n {
        n = commtexts.len();
    }
    if hnusers.len() < n {
        n = hnusers.len();
    }
    let mut comments: Vec<Comment> = Vec::new();
    let mut i: usize = 0;
    while i < n
        invariant
            0 <= i <= n,
            n == min3(
                titles.deep_view().len() as int,
                commtexts.deep_view().len() as int,
                hnusers.deep_view().len() as int,
            ),
            titles.deep_view() == attr_texts_of(html@, "span.age[title]"@, "title"@),
            commtexts.deep_view() == inner_texts_of(
                html@,
                "div.comment span.commtext.c00:not(.reply)"@,
            ),
            hnusers.deep_view() == inner_texts_of(html@, "a.hnuser"@),
            comments.deep_view() =~= extracted_comments(html@).take(i as int),
        decreases n - i,
    {
        let comment = Comment {
            hnuser: hnusers[i].clone(),
            title: titles[i].clone(),
            commtext: remove_reply_suffix(commtexts[i].as_str()),
        };
        comments.push(comment);
        proof {
            assert(extracted_comments(html@).take(i + 1) =~= extracted_comments(html@).take(
                i as int,
            ).push(extracted_comments(html@)[i as int]));
        }
        i = i + 1;
    }
    proof {
        assert(extracted_comments(html@).take(n as int) =~= extracted_comments(html@));
    }
    comments
}

} // verus!
