//! Character-level models and verified helpers for the text cleanup the
//! pipeline performs: whitespace trimming, stripping the site's trailing
//! "reply" chrome, word splitting, and rendering numbers and bytes as text.

use vstd::prelude::*;

verus! {

/// The whitespace characters recognised by the cleanup routines, the same
/// set that Rust's `char::is_whitespace` documents.
pub open spec fn is_wschar(c: char) -> bool {
    let u = c as u32;
    u == 0x20 || u == 0x09 || u == 0x0A || u == 0x0B || u == 0x0C || u == 0x0D || u == 0x85
        || u == 0xA0 || u == 0x1680 || (0x2000 <= u && u <= 0x200A) || u == 0x2028 || u == 0x2029
        || u == 0x202F || u == 0x205F || u == 0x3000
}

/// Executable twin of [`is_wschar`].
pub fn is_whitespace_char(c: char) -> (r: bool)
    ensures
        r == is_wschar(c),
{
    let u = c as u32;
    u == 0x20 || u == 0x09 || u == 0x0A || u == 0x0B || u == 0x0C || u == 0x0D || u == 0x85
        || u == 0xA0 || u == 0x1680 || (0x2000 <= u && u <= 0x200A) || u == 0x2028 || u == 0x2029
        || u == 0x202F || u == 0x205F || u == 0x3000
}

/// `s` with its leading whitespace removed.
pub open spec fn trim_start_spec(s: Seq<char>) -> Seq<char>
    decreases s.len(),
{
    if s.len() > 0 && is_wschar(s[0]) {
        trim_start_spec(s.subrange(1, s.len() as int))
    } else {
        s
    }
}

/// `s` with its trailing whitespace removed.
pub open spec fn trim_end_spec(s: Seq<char>) -> Seq<char>
    decreases s.len(),
{
    if s.len() > 0 && is_wschar(s[s.len() - 1]) {
        trim_end_spec(s.subrange(0, s.len() - 1))
    } else {
        s
    }
}

/// `s` with whitespace removed from both ends.
pub open spec fn trim_spec(s: Seq<char>) -> Seq<char> {
    trim_end_spec(trim_start_spec(s))
}

proof fn lemma_trim_start_skip_ws(s: Seq<char>, i: int)
    requires
        0 <= i <= s.len(),
        forall|j: int| 0 <= j < i ==> is_wschar(s[j]),
    ensures
        trim_start_spec(s) == trim_start_spec(s.subrange(i, s.len() as int)),
    decreases i,
{
    if i > 0 {
        let t = s.subrange(1, s.len() as int);
        lemma_trim_start_skip_ws(t, i - 1);
        assert(t.subrange(i - 1, t.len() as int) =~= s.subrange(i, s.len() as int));
    } else {
        assert(s.subrange(0, s.len() as int) =~= s);
    }
}

proof fn lemma_trim_end_drop_ws(s: Seq<char>, b: int)
    requires
        0 <= b <= s.len(),
        forall|j: int| b <= j < s.len() ==> is_wschar(s[j]),
    ensures
        trim_end_spec(s) == trim_end_spec(s.subrange(0, b)),
    decreases s.len() - b,
{
    if b < s.len() {
        let t = s.subrange(0, s.len() - 1);
        lemma_trim_end_drop_ws(t, b);
        assert(t.subrange(0, b) =~= s.subrange(0, b));
    } else {
        assert(s.subrange(0, s.len() as int) =~= s);
    }
}

/// Trimming a sequence that already starts and ends with non-whitespace
/// changes nothing.
pub proof fn lemma_trim_noop(s: Seq<char>)
    requires
        s.len() == 0 || (!is_wschar(s[0]) && !is_wschar(s[s.len() - 1])),
    ensures
        trim_spec(s) == s,
{
}

/// Returns the slice of `s` with whitespace removed from both ends.
pub fn trim_chars<'a>(s: &'a str) -> (r: &'a str)
    ensures
        r@ == trim_spec(s@),
{
    let len = s.unicode_len();
    let mut a: usize = 0;
    while a < len && is_whitespace_char(s.get_char(a))
        invariant
            0 <= a <= len,
            len == s@.len(),
            forall|j: int| 0 <= j < a ==> is_wschar(s@[j]),
        decreases len - a,
    {
        a = a + 1;
    }
    let mut b: usize = len;
    while b > a && is_whitespace_char(s.get_char(b - 1))
        invariant
            a <= b <= len,
            len == s@.len(),
            forall|j: int| b <= j < len ==> is_wschar(s@[j]),
        decreases b,
    {
        b = b - 1;
    }
    proof {
        lemma_trim_start_skip_ws(s@, a as int);
        let t = s@.subrange(a as int, len as int);
        assert(trim_start_spec(t) == t);
        lemma_trim_end_drop_ws(t, b - a);
        assert(t.subrange(0, b - a) =~= s@.subrange(a as int, b as int));
        assert(trim_end_spec(s@.subrange(a as int, b as int)) == s@.subrange(a as int, b as int));
    }
    s.substring_char(a, b)
}

/// The characters of the trailing marker the site's UI appends to a comment
/// that has a reply control.
pub open spec fn reply_suffix() -> Seq<char> {
    seq!['r', 'e', 'p', 'l', 'y']
}

/// The normalized form of a comment body: trimmed, and with one trailing
/// "reply" token (with any whitespace around it) removed when present.
pub open spec fn strip_reply_spec(s: Seq<char>) -> Seq<char> {
    let t = trim_spec(s);
    if t.len() >= 5 && t.subrange(t.len() - 5, t.len() as int) == reply_suffix() {
        trim_spec(t.subrange(0, t.len() - 5))
    } else {
        t
    }
}

/// Emits the word collected so far, if there is one.
pub open spec fn emit_word(cur: Seq<char>) -> Seq<Seq<char>> {
    if cur.len() == 0 {
        Seq::empty()
    } else {
        seq![cur]
    }
}

/// Scans `s` splitting on runs of whitespace; `cur` is the partial word read
/// so far.
pub open spec fn words_acc(s: Seq<char>, cur: Seq<char>) -> Seq<Seq<char>>
    decreases s.len(),
{
    if s.len() == 0 {
        emit_word(cur)
    } else if is_wschar(s[0]) {
        emit_word(cur) + words_acc(s.subrange(1, s.len() as int), Seq::empty())
    } else {
        words_acc(s.subrange(1, s.len() as int), cur.push(s[0]))
    }
}

/// The whitespace-separated words of `s`, in order.
pub open spec fn words_spec(s: Seq<char>) -> Seq<Seq<char>> {
    words_acc(s, Seq::empty())
}

proof fn lemma_words_acc_word(s: Seq<char>, cur: Seq<char>, m: int)
    requires
        0 <= m <= s.len(),
        forall|j: int| 0 <= j < m ==> !is_wschar(s[j]),
        m == s.len() || is_wschar(s[m]),
        cur.len() + m > 0,
    ensures
        words_acc(s, cur) == seq![cur + s.subrange(0, m)] + words_spec(
            s.subrange(m, s.len() as int),
        ),
    decreases m,
{
    if m == 0 {
        assert(cur + s.subrange(0, 0) =~= cur);
        if s.len() == 0 {
            assert(seq![cur] + words_spec(s.subrange(0, 0)) =~= seq![cur]);
        } else {
            assert(s.subrange(0, s.len() as int) =~= s);
        }
    } else {
        let s1 = s.subrange(1, s.len() as int);
        lemma_words_acc_word(s1, cur.push(s[0]), m - 1);
        assert(cur.push(s[0]) + s1.subrange(0, m - 1) =~= cur + s.subrange(0, m));
        assert(s1.subrange(m - 1, s1.len() as int) =~= s.subrange(m, s.len() as int));
    }
}

/// Splitting off the leading word: if the first `m` characters of `s` are
/// non-whitespace and a boundary follows, they form the first word.
pub proof fn lemma_words_take_word(s: Seq<char>, m: int)
    requires
        0 < m <= s.len(),
        forall|j: int| 0 <= j < m ==> !is_wschar(s[j]),
        m == s.len() || is_wschar(s[m]),
    ensures
        words_spec(s) == seq![s.subrange(0, m)] + words_spec(s.subrange(m, s.len() as int)),
{
    lemma_words_acc_word(s, Seq::empty(), m);
    assert(Seq::<char>::empty() + s.subrange(0, m) =~= s.subrange(0, m));
}

/// A leading whitespace character does not change the word split.
pub proof fn lemma_words_skip_one_ws(s: Seq<char>)
    requires
        s.len() > 0,
        is_wschar(s[0]),
    ensures
        words_spec(s) == words_spec(s.subrange(1, s.len() as int)),
{
    assert(emit_word(Seq::<char>::empty()) + words_acc(s.subrange(1, s.len() as int), Seq::empty())
        =~= words_acc(s.subrange(1, s.len() as int), Seq::empty()));
}

/// The parts of `parts` concatenated with `sep` between neighbours.
pub open spec fn join_with(parts: Seq<Seq<char>>, sep: Seq<char>) -> Seq<char>
    decreases parts.len(),
{
    if parts.len() == 0 {
        Seq::empty()
    } else if parts.len() == 1 {
        parts[0]
    } else {
        parts[0] + sep + join_with(parts.subrange(1, parts.len() as int), sep)
    }
}

/// How a join grows when one more part is appended.
pub proof fn lemma_join_with_push(parts: Seq<Seq<char>>, sep: Seq<char>, w: Seq<char>)
    ensures
        join_with(parts.push(w), sep) == if parts.len() == 0 {
            w
        } else {
            join_with(parts, sep) + sep + w
        },
    decreases parts.len(),
{
    let p = parts.push(w);
    if parts.len() == 0 {
        assert(p.len() == 1);
        assert(p[0] == w);
    } else {
        assert(p[0] == parts[0]);
        let rest = parts.subrange(1, parts.len() as int);
        assert(p.subrange(1, p.len() as int) =~= rest.push(w));
        lemma_join_with_push(rest, sep, w);
        if parts.len() == 1 {
            assert(rest.len() == 0);
            assert(join_with(p, sep) == parts[0] + sep + w);
        } else {
            assert(parts[0] + sep + (join_with(rest, sep) + sep + w) =~= (parts[0] + sep
                + join_with(rest, sep)) + sep + w);
        }
    }
}

/// The first `k` whitespace-separated words of `s`, rejoined with single
/// spaces; fewer than `k` words yields them all.
pub open spec fn first_words_spec(s: Seq<char>, k: int) -> Seq<char> {
    let ws = words_spec(s);
    let n = if ws.len() < k {
        ws.len() as int
    } else {
        k
    };
    join_with(ws.take(n), seq![' '])
}

/// Returns the first 10 whitespace-separated words of `text`, joined by
/// single spaces.
pub fn get_first_10_words(text: &str) -> (r: String)
    ensures
        r@ == first_words_spec(text@, 10),
{
    let len = text.unicode_len();
    let ghost ws = words_spec(text@);
    let mut out = String::new();
    let mut count: usize = 0;
    let mut p: usize = 0;
    let mut done = false;
    proof {
        assert(text@.subrange(0, len as int) =~= text@);
        assert(ws.skip(0) =~= ws);
    }
    while count < 10 && !done
        invariant
            0 <= p <= len,
            len == text@.len(),
            count <= 10,
            count <= ws.len(),
            ws == words_spec(text@),
            words_spec(text@.subrange(p as int, len as int)) == ws.skip(count as int),
            out@ == join_with(ws.take(count as int), seq![' ']),
            done ==> count == ws.len(),
        decreases len - p + (if done { 0int } else { 1int }),
    {
        let ghost p0 = p;
        while p < len && is_whitespace_char(text.get_char(p))
            invariant
                p0 <= p <= len,
                len == text@.len(),
                words_spec(text@.subrange(p as int, len as int)) == ws.skip(count as int),
            decreases len - p,
        {
            proof {
                let t = text@.subrange(p as int, len as int);
                lemma_words_skip_one_ws(t);
                assert(t.subrange(1, t.len() as int) =~= text@.subrange(p + 1, len as int));
            }
            p = p + 1;
        }
        if p == len {
            proof {
                assert(text@.subrange(len as int, len as int) =~= Seq::<char>::empty());
                assert(words_spec(Seq::<char>::empty()) =~= Seq::<Seq<char>>::empty());
                assert(ws.skip(count as int).len() == 0);
            }
            done = true;
        } else {
            let start = p;
            while p < len && !is_whitespace_char(text.get_char(p))
                invariant
                    start <= p <= len,
                    len == text@.len(),
                    forall|j: int| start <= j < p ==> !is_wschar(text@[j]),
                decreases len - p,
            {
                p = p + 1;
            }
            assert(p > start);
            let word = text.substring_char(start, p);
            if count > 0 {
                out.append(" ");
            }
            out.append(word);
            proof {
                let t = text@.subrange(start as int, len as int);
                lemma_words_take_word(t, p - start);
                assert(t.subrange(0, p - start) =~= text@.subrange(start as int, p as int));
                assert(t.subrange(p - start, t.len() as int) =~= text@.subrange(
                    p as int,
                    len as int,
                ));
                let tail = words_spec(text@.subrange(p as int, len as int));
                let sum = seq![word@] + tail;
                assert(ws.skip(count as int) == sum);
                assert(sum.len() == 1 + tail.len());
                assert(ws.len() - count == 1 + tail.len());
                assert(sum[0] == word@);
                assert(ws.skip(count as int)[0] == ws[count as int]);
                assert(ws[count as int] == word@);
                assert(ws.skip(count + 1) =~= tail) by {
                    assert forall|i: int| 0 <= i < tail.len() implies ws.skip(count + 1)[i]
                        == tail[i] by {
                        assert(sum[i + 1] == tail[i]);
                        assert(ws.skip(count as int)[i + 1] == ws[count + i + 1]);
                        assert(ws.skip(count + 1)[i] == ws[count + 1 + i]);
                    }
                }
                assert(ws.take(count + 1) =~= ws.take(count as int).push(ws[count as int]));
                lemma_join_with_push(ws.take(count as int), seq![' '], ws[count as int]);
                reveal_strlit(" ");
                assert(" "@ =~= seq![' ']);
            }
            count = count + 1;
        }
    }
    proof {
        let n = if ws.len() < 10 {
            ws.len() as int
        } else {
            10
        };
        assert(count == n);
    }
    out
}

/// The decimal digit characters `0` through `9`.
pub open spec fn dec_digit(d: int) -> char {
    if d == 0 {
        '0'
    } else if d == 1 {
        '1'
    } else if d == 2 {
        '2'
    } else if d == 3 {
        '3'
    } else if d == 4 {
        '4'
    } else if d == 5 {
        '5'
    } else if d == 6 {
        '6'
    } else if d == 7 {
        '7'
    } else if d == 8 {
        '8'
    } else {
        '9'
    }
}

/// The usual decimal rendering of a non-negative integer, no leading zeros.
pub open spec fn dec_of(n: int) -> Seq<char>
    decreases n,
{
    if n < 10 {
        seq![dec_digit(n)]
    } else {
        dec_of(n / 10).push(dec_digit(n % 10))
    }
}

/// The decimal rendering of a possibly negative integer.
pub open spec fn dec_of_signed(n: int) -> Seq<char> {
    if n < 0 {
        seq!['-'] + dec_of(-n)
    } else {
        dec_of(n)
    }
}

fn digit_str(d: u64) -> (r: &'static str)
    requires
        d < 10,
    ensures
        r@ == seq![dec_digit(d as int)],
{
    proof {
        reveal_strlit("0");
        reveal_strlit("1");
        reveal_strlit("2");
        reveal_strlit("3");
        reveal_strlit("4");
        reveal_strlit("5");
        reveal_strlit("6");
        reveal_strlit("7");
        reveal_strlit("8");
        reveal_strlit("9");
    }
    match d {
        0 => "0",
        1 => "1",
        2 => "2",
        3 => "3",
        4 => "4",
        5 => "5",
        6 => "6",
        7 => "7",
        8 => "8",
        _ => "9",
    }
}

/// Renders `n` in decimal.
pub fn u64_to_string(n: u64) -> (r: String)
    ensures
        r@ == dec_of(n as int),
    decreases n,
{
    if n < 10 {
        String::from_str(digit_str(n))
    } else {
        let mut s = u64_to_string(n / 10);
        s.append(digit_str(n % 10));
        proof {
            assert(dec_of((n / 10) as int) + seq![dec_digit((n % 10) as int)] =~= dec_of(
                (n / 10) as int,
            ).push(dec_digit((n % 10) as int)));
        }
        s
    }
}

/// Renders `n` in decimal, with a leading minus sign when negative.
pub fn i32_to_string(n: i32) -> (r: String)
    ensures
        r@ == dec_of_signed(n as int),
{
    if n >= 0 {
        u64_to_string(n as u64)
    } else {
        let magnitude: u64 = (-(n as i64)) as u64;
        let mut s = String::from_str("-");
        let rest = u64_to_string(magnitude);
        s.append(rest.as_str());
        proof {
            reveal_strlit("-");
            assert("-"@ =~= seq!['-']);
        }
        s
    }
}

/// The lowercase hexadecimal digit characters.
pub open spec fn hex_digit(d: int) -> char {
    if d < 10 {
        dec_digit(d)
    } else if d == 10 {
        'a'
    } else if d == 11 {
        'b'
    } else if d == 12 {
        'c'
    } else if d == 13 {
        'd'
    } else if d == 14 {
        'e'
    } else {
        'f'
    }
}

/// The lowercase hexadecimal rendering of a byte string, two digits per
/// byte, in order.
pub open spec fn hex_of(bytes: Seq<u8>) -> Seq<char>
    decreases bytes.len(),
{
    if bytes.len() == 0 {
        Seq::empty()
    } else {
        seq![hex_digit(bytes[0] as int / 16), hex_digit(bytes[0] as int % 16)] + hex_of(
            bytes.subrange(1, bytes.len() as int),
        )
    }
}

/// The encoding is two digits per byte, so its length is twice the input's.
pub proof fn lemma_hex_of_len(bytes: Seq<u8>)
    ensures
        hex_of(bytes).len() == 2 * bytes.len(),
    decreases bytes.len(),
{
    if bytes.len() > 0 {
        lemma_hex_of_len(bytes.subrange(1, bytes.len() as int));
    }
}

} // verus!
