//! The web tools' text work: the search URL, the text of a fetched page (whitespace
//! collapsed and cut to a byte limit) and the listing of search results.
use vstd::prelude::*;
use vstd::utf8::{
    decode_utf8, decode_utf8_encode_utf8, decode_utf8_split, encode_utf8, encode_utf8_decode_utf8,
    encode_utf8_valid_utf8, is_char_boundary, valid_utf8_split,
};

use crate::text::{
    byte_len, char_from_ascii, chars_of, concat, is_whitespace, is_ws, string_from_chars, trim,
    trim_start, trimmed,
};

verus! {

/// For each element of `html` matched by the CSS `selector`, in the order in which
/// `scraper`'s `select` yields them, its text nodes; empty for an invalid selector.
pub uninterp spec fn selected_texts(html: Seq<char>, selector: Seq<char>) -> Seq<Seq<Seq<char>>>;

/// For each element of `html` matched by the CSS `selector`, in the order in which
/// `scraper`'s `select` yields them, the value of its attribute `attr` if it has one;
/// empty for an invalid selector.
pub uninterp spec fn selected_attrs(html: Seq<char>, selector: Seq<char>, attr: Seq<char>) -> Seq<
    Option<Seq<char>>,
>;

/// Trusted: parses `html` with `scraper::Html::parse_document`, parses `selector`
/// with `scraper::Selector::parse` and collects, for each element that
/// `Html::select` yields, the strings of `ElementRef::text`. Claims the result is
/// `selected_texts(html, selector)`.
#[verifier::external_body]
fn select_texts(html: &str, selector: &str) -> (r: Vec<Vec<String>>)
    ensures
        r.deep_view() == selected_texts(html@, selector@),
{
    let doc = scraper::Html::parse_document(html);
    match scraper::Selector::parse(selector) {
        Ok(sel) => doc.select(&sel).map(|e| e.text().map(|t| t.to_string()).collect()).collect(),
        Err(_) => Vec::new(),
    }
}

/// Trusted: as `select_texts`, but collects `Element::attr(attr)` of each element.
/// Claims the result is `selected_attrs(html, selector, attr)`.
#[verifier::external_body]
fn select_attrs(html: &str, selector: &str, attr: &str) -> (r: Vec<Option<String>>)
    ensures
        r.deep_view() == selected_attrs(html@, selector@, attr@),
{
    let doc = scraper::Html::parse_document(html);
    match scraper::Selector::parse(selector) {
        Ok(sel) => doc.select(&sel).map(|e| e.value().attr(attr).map(|a| a.to_string())).collect(),
        Err(_) => Vec::new(),
    }
}

/// The bytes `urlencoding` leaves as they are: ASCII letters, digits and `-._~`.
pub open spec fn unreserved(b: u8) -> bool {
    ||| (48 <= b && b <= 57)
    ||| (65 <= b && b <= 90)
    ||| (97 <= b && b <= 122)
    ||| b == 45
    ||| b == 46
    ||| b == 95
    ||| b == 126
}

/// An upper-case hexadecimal digit.
pub open spec fn hex_digit(d: int) -> char {
    if d < 10 {
        ((48 + d) as u32) as char
    } else {
        ((55 + d) as u32) as char
    }
}

/// Percent-encoding of bytes: unreserved bytes as themselves, every other byte as
/// `%` and two upper-case hexadecimal digits.
pub open spec fn percent_encode(bytes: Seq<u8>) -> Seq<char>
    decreases bytes.len(),
{
    if bytes.len() == 0 {
        seq![]
    } else {
        let b = bytes[0];
        let head = if unreserved(b) {
            seq![(b as u32) as char]
        } else {
            seq!['%', hex_digit(b as int / 16), hex_digit(b as int % 16)]
        };
        head + percent_encode(bytes.drop_first())
    }
}

/// Trusted: calls `urlencoding::encode`. Claims it percent-encodes the UTF-8 bytes of
/// `s`, leaving letters, digits and `-._~`, as its documentation and source say.
#[verifier::external_body]
fn url_encode(s: &str) -> (r: String)
    ensures
        r@ == percent_encode(encode_utf8(s@)),
{
    urlencoding::encode(s).into_owned()
}

/// The search page URL for `query`.
pub fn search_url(query: &str) -> (r: String)
    ensures
        r@ == "https://html.duckduckgo.com/html/?q="@ + percent_encode(encode_utf8(query@)),
{
    let q = url_encode(query);
    concat("https://html.duckduckgo.com/html/?q=", q.as_str())
}

/// `parts` joined with `sep` between neighbours.
pub open spec fn join(parts: Seq<Seq<char>>, sep: Seq<char>) -> Seq<char>
    decreases parts.len(),
{
    if parts.len() == 0 {
        seq![]
    } else if parts.len() == 1 {
        parts[0]
    } else {
        join(parts.drop_last(), sep) + sep + parts.last()
    }
}

/// `s` with its whitespace runs reduced: the maximal runs of non-whitespace
/// characters, in order, with one space between neighbours (what
/// `split_whitespace` followed by `join(" ")` gives).
pub open spec fn collapse_ws(s: Seq<char>) -> Seq<char>
    decreases s.len(),
{
    if s.len() == 0 {
        seq![]
    } else {
        let prev = collapse_ws(s.drop_last());
        let c = s.last();
        if is_ws(c) {
            prev
        } else if s.len() >= 2 && !is_ws(s[s.len() - 2]) {
            prev.push(c)
        } else if prev.len() == 0 {
            seq![c]
        } else {
            prev.push(' ').push(c)
        }
    }
}

/// The note put after a page text that was cut.
pub open spec fn cut_note() -> Seq<char> {
    "...\n\n[Content truncated. Page was very long.]"@
}

/// `text` cut after its first `max` UTF-8 bytes, with the cut note, when it is longer.
pub open spec fn truncated(text: Seq<char>, max: int) -> Seq<char> {
    if encode_utf8(text).len() > max {
        decode_utf8(encode_utf8(text).subrange(0, max)) + cut_note()
    } else {
        text
    }
}

/// Cutting `text` after `max` bytes does not split a character.
pub open spec fn cut_fits(text: Seq<char>, max: int) -> bool {
    encode_utf8(text).len() > max ==> is_char_boundary(encode_utf8(text), max)
}

/// The readable text of a page: the text nodes of its `body` joined with spaces and
/// whitespace-collapsed, or a fixed notice when it has no body.
pub open spec fn page_text_of(html: Seq<char>) -> Seq<char> {
    let bodies = selected_texts(html, "body"@);
    if bodies.len() == 0 {
        "Could not extract page content."@
    } else {
        collapse_ws(join(bodies[0], " "@))
    }
}

/// Text whose every whitespace character is a space that follows a character that is
/// not whitespace (no leading whitespace, no runs).
pub open spec fn single_spaced(s: Seq<char>) -> bool {
    forall|i: int|
        0 <= i < s.len() && is_ws(#[trigger] s[i]) ==> s[i] == ' ' && i > 0 && !is_ws(s[i - 1])
}

/// Collapsing single-spaced text only drops a trailing space.
proof fn lemma_collapse_single_spaced(s: Seq<char>)
    requires
        single_spaced(s),
    ensures
        collapse_ws(s) == (if s.len() > 0 && is_ws(s.last()) {
            s.drop_last()
        } else {
            s
        }),
    decreases s.len(),
{
    if s.len() > 0 {
        let t = s.drop_last();
        assert forall|i: int| 0 <= i < t.len() && is_ws(#[trigger] t[i]) implies t[i] == ' ' && i
            > 0 && !is_ws(t[i - 1]) by {
            assert(t[i] == s[i]);
            assert(t[i - 1] == s[i - 1]);
        }
        lemma_collapse_single_spaced(t);
        let c = s.last();
        if is_ws(c) {
            assert(!is_ws(s[s.len() - 2]));
            assert(t.last() == s[s.len() - 2]);
        } else if s.len() >= 2 && !is_ws(s[s.len() - 2]) {
            assert(t.last() == s[s.len() - 2]);
            assert(t.push(c) =~= s);
        } else if s.len() == 1 {
            assert(seq![c] =~= s);
        } else {
            let m = s.len() - 2;
            assert(is_ws(s[m]));
            assert(s[m] == ' ' && m > 0);
            assert(t.last() == s[m]);
            assert(t.drop_last().push(' ').push(c) =~= s);
        }
    }
}

/// Non-empty parts without whitespace, joined with single spaces, give single-spaced
/// text that ends in a character that is not whitespace.
proof fn lemma_join_single_spaced(parts: Seq<Seq<char>>)
    requires
        parts.len() > 0,
        forall|k: int| 0 <= k < parts.len() ==> (#[trigger] parts[k]).len() > 0,
        forall|k: int, i: int| 0 <= k < parts.len() && 0 <= i < parts[k].len() ==> !is_ws(#[trigger] parts[k][i]),
    ensures
        join(parts, " "@).len() > 0,
        !is_ws(join(parts, " "@).last()),
        single_spaced(join(parts, " "@)),
    decreases parts.len(),
{
    reveal_strlit(" ");
    let j = join(parts, " "@);
    if parts.len() == 1 {
        assert(j == parts[0]);
        assert(!is_ws(parts[0][parts[0].len() - 1]));
        assert forall|i: int| 0 <= i < j.len() implies !is_ws(#[trigger] j[i]) by {
            assert(!is_ws(parts[0][i]));
        }
    } else {
        let d = parts.drop_last();
        assert forall|k: int| 0 <= k < d.len() implies (#[trigger] d[k]).len() > 0 by {
            assert(d[k] == parts[k]);
        }
        assert forall|k: int, i: int| 0 <= k < d.len() && 0 <= i < d[k].len() implies !is_ws(
            #[trigger] d[k][i],
        ) by {
            assert(d[k] == parts[k]);
            assert(!is_ws(parts[k][i]));
        }
        lemma_join_single_spaced(d);
        let j0 = join(d, " "@);
        let w = parts.last();
        assert(j == j0 + " "@ + w);
        assert(w == parts[parts.len() - 1]);
        assert(!is_ws(parts[parts.len() - 1][w.len() - 1]));
        assert(j.last() == w[w.len() - 1]);
        assert forall|i: int| 0 <= i < j.len() && is_ws(#[trigger] j[i]) implies j[i] == ' ' && i
            > 0 && !is_ws(j[i - 1]) by {
            if i < j0.len() {
                assert(j[i] == j0[i]);
                if i > 0 {
                    assert(j[i - 1] == j0[i - 1]);
                }
            } else if i == j0.len() {
                assert(j[i] == ' ');
                assert(j[i - 1] == j0.last());
            } else {
                assert(j[i] == w[i - j0.len() - 1]);
                assert(!is_ws(parts[parts.len() - 1][i - j0.len() - 1]));
            }
        }
    }
}

/// Law: when the text nodes of a page's body are non-empty and hold no whitespace,
/// the page text is those nodes with exactly one space between neighbours; in
/// particular two such nodes `a` and `b` give `a b`.
pub proof fn law_page_text_spaces_nodes(html: Seq<char>)
    requires
        selected_texts(html, "body"@).len() > 0,
        selected_texts(html, "body"@)[0].len() > 0,
        forall|k: int|
            0 <= k < selected_texts(html, "body"@)[0].len() ==> (
            #[trigger] selected_texts(html, "body"@)[0][k]).len() > 0,
        forall|k: int, i: int|
            0 <= k < selected_texts(html, "body"@)[0].len() && 0 <= i < selected_texts(
                html,
                "body"@,
            )[0][k].len() ==> !is_ws(#[trigger] selected_texts(html, "body"@)[0][k][i]),
    ensures
        page_text_of(html) == join(selected_texts(html, "body"@)[0], " "@),
        selected_texts(html, "body"@)[0].len() == 2 ==> page_text_of(html) == selected_texts(
            html,
            "body"@,
        )[0][0] + " "@ + selected_texts(html, "body"@)[0][1],
{
    let parts = selected_texts(html, "body"@)[0];
    lemma_join_single_spaced(parts);
    lemma_collapse_single_spaced(join(parts, " "@));
    if parts.len() == 2 {
        assert(parts.drop_last().len() == 1);
        assert(parts.drop_last()[0] == parts[0]);
        assert(join(parts.drop_last(), " "@) == parts[0]);
        assert(parts.last() == parts[1]);
        assert(join(parts, " "@) == join(parts.drop_last(), " "@) + " "@ + parts.last());
    }
}

/// Law: a text of at most `max` UTF-8 bytes is kept whole; a longer one, cut where no
/// character is split, keeps exactly its first `max` bytes followed by the cut note.
pub proof fn law_truncated_keeps_limit(text: Seq<char>, max: int)
    requires
        0 <= max,
        cut_fits(text, max),
    ensures
        encode_utf8(text).len() <= max ==> truncated(text, max) == text,
        encode_utf8(text).len() > max ==> {
            let head = truncated(text, max).subrange(
                0,
                truncated(text, max).len() - cut_note().len(),
            );
            &&& truncated(text, max).len() >= cut_note().len()
            &&& truncated(text, max).subrange(
                truncated(text, max).len() - cut_note().len(),
                truncated(text, max).len() as int,
            ) == cut_note()
            &&& encode_utf8(head) == encode_utf8(text).subrange(0, max)
            &&& head.len() <= text.len()
            &&& head == text.subrange(0, head.len() as int)
        },
{
    if encode_utf8(text).len() > max {
        let b = encode_utf8(text).subrange(0, max);
        let t = truncated(text, max);
        let head = decode_utf8(b);
        assert(t == head + cut_note());
        assert(t.subrange(0, t.len() - cut_note().len()) =~= head);
        assert(t.subrange(t.len() - cut_note().len(), t.len() as int) =~= cut_note());
        let bytes = encode_utf8(text);
        encode_utf8_valid_utf8(text);
        encode_utf8_decode_utf8(text);
        valid_utf8_split(bytes, max);
        decode_utf8_split(bytes, max);
        decode_utf8_encode_utf8(b);
        let tail = decode_utf8(bytes.subrange(max, bytes.len() as int));
        assert(text == head + tail);
        assert(text.subrange(0, head.len() as int) =~= head);
    }
}

/// The limit of a page text, 8000 bytes unless given.
pub open spec fn page_limit(max_chars: Option<usize>) -> int {
    match max_chars {
        Some(m) => m as int,
        None => 8000,
    }
}

/// `parts` joined with `sep`.
pub fn join_strings(parts: &Vec<String>, sep: &str) -> (r: String)
    ensures
        r@ == join(parts.deep_view(), sep@),
{
    let mut r = String::new();
    let ghost d = parts.deep_view();
    let mut i: usize = 0;
    while i < parts.len()
        invariant
            i <= parts@.len(),
            d == parts.deep_view(),
            r@ == join(d.take(i as int), sep@),
        decreases parts@.len() - i,
    {
        assert(d.take(i + 1).drop_last() =~= d.take(i as int));
        assert(d.take(i + 1).last() == parts@[i as int]@);
        if i > 0 {
            r.append(sep);
        }
        r.append(parts[i].as_str());
        i = i + 1;
    }
    assert(d.take(parts@.len() as int) =~= d);
    r
}

/// `s` with whitespace runs collapsed (see `collapse_ws`).
pub fn collapse_whitespace(s: &str) -> (r: String)
    ensures
        r@ == collapse_ws(s@),
{
    let v = chars_of(s);
    let mut out: Vec<char> = Vec::new();
    let mut i: usize = 0;
    while i < v.len()
        invariant
            i <= v@.len(),
            v@ == s@,
            out@ == collapse_ws(v@.take(i as int)),
        decreases v@.len() - i,
    {
        let c = v[i];
        let ghost t = v@.take(i + 1);
        assert(t.drop_last() =~= v@.take(i as int));
        assert(t.last() == c);
        if !is_whitespace(c) {
            if i >= 1 && !is_whitespace(v[i - 1]) {
                assert(t[t.len() - 2] == v@[i - 1]);
                out.push(c);
            } else if out.len() == 0 {
                out.push(c);
                assert(out@ =~= seq![c]);
            } else {
                if i >= 1 {
                    assert(t[t.len() - 2] == v@[i - 1]);
                }
                out.push(' ');
                out.push(c);
            }
        }
        i = i + 1;
    }
    assert(v@.take(v@.len() as int) =~= v@);
    string_from_chars(out.as_slice())
}

/// `text` cut after its first `max` bytes, followed by the cut note, when it is
/// longer than that; otherwise `text` itself.
pub fn truncate_text(text: &str, max: usize) -> (r: String)
    requires
        cut_fits(text@, max as int),
    ensures
        r@ == truncated(text@, max as int),
{
    if byte_len(text) > max {
        let (head, _) = text.split_at(max);
        proof {
            encode_utf8_decode_utf8(head@);
            assert(encode_utf8(head@) =~= encode_utf8(text@).subrange(0, max as int));
            assert(head@ == decode_utf8(encode_utf8(text@).subrange(0, max as int)));
        }
        let r = concat(head, "...\n\n[Content truncated. Page was very long.]");
        assert(r@ == decode_utf8(encode_utf8(text@).subrange(0, max as int)) + cut_note());
        r
    } else {
        String::from_str(text)
    }
}

/// The readable text of a fetched page, cut to `max_chars` bytes (8000 when absent).
/// `None` when that cut would fall inside a character.
pub fn page_text(html: &str, max_chars: Option<usize>) -> (r: Option<String>)
    ensures
        match r {
            Some(t) => cut_fits(page_text_of(html@), page_limit(max_chars)) && t@ == truncated(
                page_text_of(html@),
                page_limit(max_chars),
            ),
            None => !cut_fits(page_text_of(html@), page_limit(max_chars)),
        },
{
    let bodies = select_texts(html, "body");
    let text = if bodies.len() == 0 {
        String::from_str("Could not extract page content.")
    } else {
        assert(bodies.deep_view()[0] == bodies@[0].deep_view());
        let joined = join_strings(&bodies[0], " ");
        collapse_whitespace(joined.as_str())
    };
    assert(text@ == page_text_of(html@));
    let max = match max_chars {
        Some(m) => m,
        None => 8000,
    };
    if byte_len(text.as_str()) > max && !text.as_str().is_char_boundary(max) {
        return None;
    }
    Some(truncate_text(text.as_str(), max))
}

/// The decimal digit for `n` (from 0 to 9).
pub open spec fn digit(n: int) -> Seq<char> {
    seq![((48 + n) as u32) as char]
}

/// One entry of the search listing: its number, the title, the link and the snippet.
pub open spec fn search_entry(i: int, title: Seq<char>, link: Seq<char>, snippet: Seq<char>) -> Seq<
    char,
> {
    digit(i + 1) + ". "@ + trimmed(title) + "\n   "@ + link + "\n   "@ + trimmed(snippet)
}

/// The entries of a search listing: for each of the first five titles (each given
/// as its text nodes), its text, the link of the same rank (empty when absent or
/// missing) and the snippet of the same rank (empty when there is none).
pub open spec fn listing_entries(
    titles: Seq<Seq<Seq<char>>>,
    links: Seq<Option<Seq<char>>>,
    snippets: Seq<Seq<Seq<char>>>,
) -> Seq<Seq<char>> {
    let n = if titles.len() < 5 {
        titles.len()
    } else {
        5
    };
    Seq::new(
        n,
        |i: int|
            search_entry(
                i,
                join(titles[i], ""@),
                if i < links.len() && links[i] is Some {
                    links[i]->0
                } else {
                    ""@
                },
                if i < snippets.len() {
                    join(snippets[i], ""@)
                } else {
                    ""@
                },
            ),
    )
}

/// A search listing: its entries separated by blank lines, or a notice when there
/// is none.
pub open spec fn listing_text(
    titles: Seq<Seq<Seq<char>>>,
    links: Seq<Option<Seq<char>>>,
    snippets: Seq<Seq<Seq<char>>>,
) -> Seq<char> {
    if listing_entries(titles, links, snippets).len() == 0 {
        "No search results found."@
    } else {
        join(listing_entries(titles, links, snippets), "\n\n"@)
    }
}

/// The search listing of a result page: its `.result__a` elements (text and `href`)
/// with the `.result__snippet` elements of the same rank.
pub open spec fn search_listing(html: Seq<char>) -> Seq<char> {
    listing_text(
        selected_texts(html, ".result__a"@),
        selected_attrs(html, ".result__a"@, "href"@),
        selected_texts(html, ".result__snippet"@),
    )
}

/// Joining with nothing between is concatenation.
proof fn lemma_join_nothing(parts: Seq<Seq<char>>)
    ensures
        join(parts, ""@) == parts.flatten(),
    decreases parts.len(),
{
    reveal_strlit("");
    parts.lemma_flatten_and_flatten_alt_are_equivalent();
    if parts.len() == 1 {
        assert(parts.flatten_alt() == parts.drop_last().flatten_alt() + parts.last());
        assert(parts.flatten_alt() =~= parts[0]);
    } else if parts.len() > 1 {
        lemma_join_nothing(parts.drop_last());
        parts.drop_last().lemma_flatten_and_flatten_alt_are_equivalent();
        assert(join(parts, ""@) =~= join(parts.drop_last(), ""@) + parts.last());
    }
}

/// The text of an entry's snippet: all its text nodes in order, trimmed; empty when
/// the entry has no snippet.
pub open spec fn snippet_text(snippets: Seq<Seq<Seq<char>>>, i: int) -> Seq<char> {
    if 0 <= i < snippets.len() {
        trimmed(snippets[i].flatten())
    } else {
        seq![]
    }
}

/// Law: the listing of a single result is `1. `, its title (all its text nodes,
/// trimmed), its link (empty when it has none) and its snippet (all its text nodes,
/// trimmed), on lines of their own indented by three spaces.
pub proof fn law_listing_of_one_result(
    title: Seq<Seq<char>>,
    link: Option<Seq<char>>,
    snippet: Seq<Seq<char>>,
)
    ensures
        listing_text(seq![title], seq![link], seq![snippet]) == "1. "@ + trimmed(title.flatten())
            + "\n   "@ + (match link {
            Some(l) => l,
            None => ""@,
        }) + "\n   "@ + trimmed(snippet.flatten()),
{
    reveal_strlit("1. ");
    reveal_strlit(". ");
    reveal_strlit("");
    lemma_join_nothing(title);
    lemma_join_nothing(snippet);
    let es = listing_entries(seq![title], seq![link], seq![snippet]);
    assert(es.len() == 1);
    assert(digit(1) + ". "@ =~= "1. "@);
    assert(join(es, "\n\n"@) == es[0]);
}

/// Law: a listing ends with the snippet of its last entry (all the snippet's text
/// nodes in order, trimmed), on a line of its own indented by three spaces.
pub proof fn law_listing_ends_with_last_snippet(
    titles: Seq<Seq<Seq<char>>>,
    links: Seq<Option<Seq<char>>>,
    snippets: Seq<Seq<Seq<char>>>,
)
    requires
        titles.len() > 0,
    ensures
        ({
            let n = if titles.len() < 5 {
                titles.len() as int
            } else {
                5
            };
            let t = listing_text(titles, links, snippets);
            let e = "\n   "@ + snippet_text(snippets, n - 1);
            t.len() >= e.len() && t.subrange(t.len() - e.len(), t.len() as int) == e
        }),
{
    let n = if titles.len() < 5 {
        titles.len() as int
    } else {
        5
    };
    let es = listing_entries(titles, links, snippets);
    let e = "\n   "@ + snippet_text(snippets, n - 1);
    if n - 1 < snippets.len() {
        lemma_join_nothing(snippets[n - 1]);
    } else {
        reveal_strlit("");
        assert(trim_start(seq![]) =~= seq![]);
        assert(trimmed(seq![]) =~= seq![]);
    }
    let last = es[n - 1];
    assert(last.subrange(last.len() - e.len(), last.len() as int) =~= e);
    let t = listing_text(titles, links, snippets);
    if n == 1 {
        assert(join(es, "\n\n"@) == es[0]);
    } else {
        assert(es.last() == last);
        assert(t == join(es.drop_last(), "\n\n"@) + "\n\n"@ + last);
        assert(t.subrange(t.len() - e.len(), t.len() as int) =~= last.subrange(
            last.len() - e.len(),
            last.len() as int,
        ));
    }
}

/// Lists search results (at most five: number, title, link and snippet each), or
/// says that there are none. Titles and snippets are given as their text nodes.
pub fn list_search_results(
    titles: &Vec<Vec<String>>,
    links: &Vec<Option<String>>,
    snippets: &Vec<Vec<String>>,
) -> (r: String)
    ensures
        r@ == listing_text(titles.deep_view(), links.deep_view(), snippets.deep_view()),
{
    let n = if titles.len() < 5 {
        titles.len()
    } else {
        5
    };
    let ghost want = listing_entries(titles.deep_view(), links.deep_view(), snippets.deep_view());
    let mut entries: Vec<String> = Vec::new();
    let mut i: usize = 0;
    while i < n
        invariant
            i <= n,
            n <= titles@.len(),
            n <= 5,
            n == want.len(),
            want == listing_entries(titles.deep_view(), links.deep_view(), snippets.deep_view()),
            entries.deep_view() == want.take(i as int),
        decreases n - i,
    {
        let title = join_strings(&titles[i], "");
        assert(titles.deep_view()[i as int] == titles@[i as int].deep_view());
        let link = if i < links.len() {
            match &links[i] {
                Some(l) => String::from_str(l.as_str()),
                None => String::from_str(""),
            }
        } else {
            String::from_str("")
        };
        let snippet = if i < snippets.len() {
            assert(snippets.deep_view()[i as int] == snippets@[i as int].deep_view());
            join_strings(&snippets[i], "")
        } else {
            String::from_str("")
        };
        let number = string_from_chars(&[char_from_ascii((49 + i) as u8)]);
        let mut entry = number;
        entry.append(". ");
        let t = trim(title.as_str());
        entry.append(t.as_str());
        entry.append("\n   ");
        entry.append(link.as_str());
        entry.append("\n   ");
        let sn = trim(snippet.as_str());
        entry.append(sn.as_str());
        assert(entry@ == want[i as int]);
        let ghost before = entries.deep_view();
        entries.push(entry);
        assert(entries.deep_view() =~= before.push(want[i as int]));
        assert(want.take(i + 1) =~= want.take(i as int).push(want[i as int]));
        i = i + 1;
    }
    if n == 0 {
        return String::from_str("No search results found.");
    }
    assert(want.take(n as int) =~= want);
    join_strings(&entries, "\n\n")
}

/// Lists the results of a search result page (see `list_search_results`).
pub fn search_results(html: &str) -> (r: String)
    ensures
        r@ == search_listing(html@),
{
    let titles = select_texts(html, ".result__a");
    let links = select_attrs(html, ".result__a", "href");
    let snippets = select_texts(html, ".result__snippet");
    list_search_results(&titles, &links, &snippets)
}

} // verus!
