//! Character-level text operations shared by the rest of the crate: whitespace,
//! trimming, substring search, prefixes, ASCII case folding and string building.
use vstd::prelude::*;

verus! {

/// Unicode `White_Space`: the characters for which `char::is_whitespace` holds.
pub open spec fn is_ws(c: char) -> bool {
    ||| ('\u{9}' <= c && c <= '\u{d}')
    ||| c == ' '
    ||| c == '\u{85}'
    ||| c == '\u{a0}'
    ||| c == '\u{1680}'
    ||| ('\u{2000}' <= c && c <= '\u{200a}')
    ||| c == '\u{2028}'
    ||| c == '\u{2029}'
    ||| c == '\u{202f}'
    ||| c == '\u{205f}'
    ||| c == '\u{3000}'
}

/// `s` without its leading whitespace.
pub open spec fn trim_start(s: Seq<char>) -> Seq<char>
    decreases s.len(),
{
    if s.len() > 0 && is_ws(s[0]) {
        trim_start(s.drop_first())
    } else {
        s
    }
}

/// `s` without its trailing whitespace.
pub open spec fn trim_end(s: Seq<char>) -> Seq<char>
    decreases s.len(),
{
    if s.len() > 0 && is_ws(s.last()) {
        trim_end(s.drop_last())
    } else {
        s
    }
}

/// `s` without leading and trailing whitespace (what `str::trim` gives).
pub open spec fn trimmed(s: Seq<char>) -> Seq<char> {
    trim_end(trim_start(s))
}

/// `pat` occurs in `s` starting at index `i`.
pub open spec fn occurs_at(s: Seq<char>, pat: Seq<char>, i: int) -> bool {
    &&& 0 <= i
    &&& i + pat.len() <= s.len()
    &&& s.subrange(i, i + pat.len()) == pat
}

/// `pat` occurs somewhere in `s` (what `str::contains` tells).
pub open spec fn contains(s: Seq<char>, pat: Seq<char>) -> bool {
    exists|i: int| occurs_at(s, pat, i)
}

/// The first index at or after `i` where `pat` occurs in `s`.
pub open spec fn find_from(s: Seq<char>, pat: Seq<char>, i: int) -> Option<int>
    decreases s.len() + 1 - i,
{
    if i < 0 || i + pat.len() > s.len() {
        None
    } else if occurs_at(s, pat, i) {
        Some(i)
    } else {
        find_from(s, pat, i + 1)
    }
}

/// `s` begins with `p`.
pub open spec fn starts_with(s: Seq<char>, p: Seq<char>) -> bool {
    p.len() <= s.len() && s.subrange(0, p.len() as int) == p
}

/// All characters of `s` are ASCII.
pub open spec fn all_ascii(s: Seq<char>) -> bool {
    forall|i: int| 0 <= i < s.len() ==> (s[i] as u32) < 128
}

/// The ASCII lower-case form of a character: `A`..`Z` become `a`..`z`, all else stays.
pub open spec fn ascii_lower_char(c: char) -> char {
    if 'A' <= c && c <= 'Z' {
        ((c as u32) + 32) as char
    } else {
        c
    }
}

/// `s` with each character folded by `ascii_lower_char`.
pub open spec fn ascii_lower(s: Seq<char>) -> Seq<char> {
    Seq::new(s.len(), |i: int| ascii_lower_char(s[i]))
}

/// Equality up to ASCII case (what `str::eq_ignore_ascii_case` tells).
pub open spec fn eq_ignore_ascii_case(a: Seq<char>, b: Seq<char>) -> bool {
    a.len() == b.len() && forall|i: int|
        0 <= i < a.len() ==> ascii_lower_char(#[trigger] a[i]) == ascii_lower_char(b[i])
}

/// Lower-case form of a string as computed by `str::to_lowercase` (Unicode rules).
pub uninterp spec fn lowercase(s: Seq<char>) -> Seq<char>;

/// Trusted: calls `str::to_lowercase`. Claims the result is `lowercase(s)`; that on
/// all-ASCII input it maps `A`..`Z` to `a`..`z` and leaves every other character;
/// and that a text differing from `s` only in the case of ASCII letters has the
/// same lower-case form (ASCII letters map on their own, and either case counts as
/// a cased letter for the one context rule, that of final sigma).
#[verifier::external_body]
pub(crate) fn to_lowercase(s: &str) -> (r: String)
    ensures
        r@ == lowercase(s@),
        all_ascii(s@) ==> r@ == ascii_lower(s@),
        forall|other: Seq<char>| #[trigger]
            eq_ignore_ascii_case(other, s@) ==> lowercase(other) == r@,
{
    s.to_lowercase()
}

/// Trusted: builds a `String` from characters with `Iterator::collect`; claims the
/// string holds exactly those characters.
#[verifier::external_body]
pub(crate) fn string_from_chars(v: &[char]) -> (r: String)
    ensures
        r@ == v@,
{
    v.iter().collect()
}

/// The characters of `s`, in order.
pub fn chars_of(s: &str) -> (v: Vec<char>)
    ensures
        v@ == s@,
{
    let mut v: Vec<char> = Vec::new();
    for c in it: s.chars()
        invariant
            v@ == it.seq().take(it.index() as int),
    {
        v.push(c);
    }
    v
}

/// Whether `c` is whitespace (as `char::is_whitespace`).
pub fn is_whitespace(c: char) -> (r: bool)
    ensures
        r == is_ws(c),
{
    ('\u{9}' <= c && c <= '\u{d}') || c == ' ' || c == '\u{85}' || c == '\u{a0}' || c
        == '\u{1680}' || ('\u{2000}' <= c && c <= '\u{200a}') || c == '\u{2028}' || c
        == '\u{2029}' || c == '\u{202f}' || c == '\u{205f}' || c == '\u{3000}'
}

/// The bounds of the trimmed part of `s[lo..hi]`.
pub fn trim_range(s: &Vec<char>, lo: usize, hi: usize) -> (r: (usize, usize))
    requires
        lo <= hi <= s@.len(),
    ensures
        lo <= r.0 <= r.1 <= hi,
        s@.subrange(r.0 as int, r.1 as int) == trimmed(s@.subrange(lo as int, hi as int)),
{
    let mut a = lo;
    while a < hi && is_whitespace(s[a])
        invariant
            lo <= a <= hi <= s@.len(),
            trim_start(s@.subrange(lo as int, hi as int)) == trim_start(
                s@.subrange(a as int, hi as int),
            ),
        decreases hi - a,
    {
        assert(s@.subrange(a as int, hi as int).drop_first() =~= s@.subrange(
            a + 1,
            hi as int,
        ));
        a = a + 1;
    }
    let mut b = hi;
    while b > a && is_whitespace(s[b - 1])
        invariant
            lo <= a <= b <= hi <= s@.len(),
            trim_end(s@.subrange(a as int, hi as int)) == trim_end(
                s@.subrange(a as int, b as int),
            ),
        decreases b - a,
    {
        assert(s@.subrange(a as int, b as int).drop_last() =~= s@.subrange(
            a as int,
            b - 1,
        ));
        b = b - 1;
    }
    (a, b)
}

/// `s` trimmed of leading and trailing whitespace (as `str::trim`).
pub fn trim(s: &str) -> (r: String)
    ensures
        r@ == trimmed(s@),
{
    let v = chars_of(s);
    let (a, b) = trim_range(&v, 0, v.len());
    assert(v@.subrange(0, v@.len() as int) =~= v@);
    let piece = slice_range(&v, a, b);
    string_from_chars(piece.as_slice())
}

/// A copy of `v[a..b]`.
pub fn slice_range(v: &Vec<char>, a: usize, b: usize) -> (r: Vec<char>)
    requires
        a <= b <= v@.len(),
    ensures
        r@ == v@.subrange(a as int, b as int),
{
    let mut r: Vec<char> = Vec::new();
    let mut i = a;
    while i < b
        invariant
            a <= i <= b <= v@.len(),
            r@ == v@.subrange(a as int, i as int),
        decreases b - i,
    {
        r.push(v[i]);
        i = i + 1;
        assert(r@ =~= v@.subrange(a as int, i as int));
    }
    r
}

/// Whether `pat` occurs in `s` at index `i`.
pub fn matches_at(s: &Vec<char>, pat: &Vec<char>, i: usize) -> (r: bool)
    ensures
        r == occurs_at(s@, pat@, i as int),
{
    if i > s.len() || pat.len() > s.len() - i {
        return false;
    }
    let mut k: usize = 0;
    while k < pat.len()
        invariant
            i + pat.len() <= s.len(),
            k <= pat.len(),
            forall|j: int| 0 <= j < k ==> s@[i + j] == pat@[j],
        decreases pat@.len() - k,
    {
        assert(i + k < s.len());
        if s[i + k] != pat[k] {
            assert(s@.subrange(i as int, i + pat@.len())[k as int] != pat@[k as int]);
            return false;
        }
        k = k + 1;
    }
    assert(s@.subrange(i as int, i + pat@.len()) =~= pat@);
    true
}

/// What `find_from` means, index by index.
pub proof fn lemma_find_from(s: Seq<char>, pat: Seq<char>, i: int)
    requires
        0 <= i,
    ensures
        match find_from(s, pat, i) {
            Some(k) => i <= k && occurs_at(s, pat, k) && forall|j: int|
                i <= j < k ==> !occurs_at(s, pat, j),
            None => forall|j: int| i <= j ==> !occurs_at(s, pat, j),
        },
    decreases s.len() + 1 - i,
{
    if i + pat.len() > s.len() {
    } else if occurs_at(s, pat, i) {
    } else {
        lemma_find_from(s, pat, i + 1);
    }
}

/// The first index at or after `from` where `pat` occurs in `s`.
pub fn find_chars(s: &Vec<char>, pat: &Vec<char>, from: usize) -> (r: Option<usize>)
    ensures
        match r {
            Some(k) => find_from(s@, pat@, from as int) == Some(k as int),
            None => find_from(s@, pat@, from as int) is None,
        },
{
    if from > s.len() || pat.len() > s.len() - from {
        return None;
    }
    let last = s.len() - pat.len();
    let mut i = from;
    loop
        invariant
            from <= i <= last,
            last + pat@.len() == s@.len(),
            find_from(s@, pat@, from as int) == find_from(s@, pat@, i as int),
        decreases last - i,
    {
        if matches_at(s, pat, i) {
            return Some(i);
        }
        if i == last {
            assert(find_from(s@, pat@, i + 1) is None);
            return None;
        }
        i = i + 1;
    }
}

/// Whether `pat` occurs in `s`.
pub fn contains_chars(s: &Vec<char>, pat: &Vec<char>) -> (r: bool)
    ensures
        r == contains(s@, pat@),
{
    let f = find_chars(s, pat, 0);
    proof {
        lemma_find_from(s@, pat@, 0);
    }
    f.is_some()
}

/// Whether `s` begins with `p`.
pub fn starts_with_chars(s: &Vec<char>, p: &Vec<char>) -> (r: bool)
    ensures
        r == starts_with(s@, p@),
{
    let r = matches_at(s, p, 0);
    r
}

/// `a` followed by `b`.
pub fn concat(a: &str, b: &str) -> (r: String)
    ensures
        r@ == a@ + b@,
{
    let mut r = String::from_str(a);
    r.append(b);
    r
}

/// `a`, `b` and `c` in a row.
pub fn concat3(a: &str, b: &str, c: &str) -> (r: String)
    ensures
        r@ == a@ + b@ + c@,
{
    let mut r = String::from_str(a);
    r.append(b);
    r.append(c);
    r
}

/// Whether `a` and `b` are equal up to ASCII case (as `str::eq_ignore_ascii_case`).
pub fn eq_ignoring_ascii_case(a: &Vec<char>, b: &Vec<char>) -> (r: bool)
    ensures
        r == eq_ignore_ascii_case(a@, b@),
{
    if a.len() != b.len() {
        return false;
    }
    let mut i: usize = 0;
    while i < a.len()
        invariant
            a@.len() == b@.len(),
            i <= a@.len(),
            forall|j: int| 0 <= j < i ==> ascii_lower_char(#[trigger] a@[j]) == ascii_lower_char(
                b@[j],
            ),
        decreases a@.len() - i,
    {
        if fold_ascii(a[i]) != fold_ascii(b[i]) {
            return false;
        }
        i = i + 1;
    }
    true
}

/// The ASCII lower-case form of `c`.
pub fn fold_ascii(c: char) -> (r: char)
    ensures
        r == ascii_lower_char(c),
{
    if 'A' <= c && c <= 'Z' {
        let u: u32 = (c as u32) + 32;
        assert(u <= 0x7a);
        char_from_ascii(u as u8)
    } else {
        c
    }
}

/// The character with code `b`.
pub fn char_from_ascii(b: u8) -> (r: char)
    ensures
        r == (b as u32) as char,
{
    b as char
}

/// Whether two character sequences are equal.
pub fn same_chars(a: &Vec<char>, b: &Vec<char>) -> (r: bool)
    ensures
        r == (a@ == b@),
{
    if a.len() != b.len() {
        return false;
    }
    let r = matches_at(a, b, 0);
    proof {
        assert(a@.subrange(0, b@.len() as int) =~= a@);
    }
    r
}

/// The length of `s` in UTF-8 bytes (as `str::len`).
pub fn byte_len(s: &str) -> (n: usize)
    ensures
        n == vstd::utf8::encode_utf8(s@).len(),
{
    s.as_bytes().len()
}

/// `find_from` gives the first occurrence at or after `i`.
pub proof fn lemma_find_is(s: Seq<char>, pat: Seq<char>, i: int, k: int)
    requires
        0 <= i <= k,
        occurs_at(s, pat, k),
        forall|j: int| i <= j < k ==> !occurs_at(s, pat, j),
    ensures
        find_from(s, pat, i) == Some(k),
{
    lemma_find_from(s, pat, i);
}

/// Trimming the end of `c` followed by `y`.
pub proof fn lemma_trim_end_prepend(c: char, y: Seq<char>)
    ensures
        trim_end(seq![c] + y) == (if trim_end(y).len() == 0 && is_ws(c) {
            Seq::<char>::empty()
        } else {
            seq![c] + trim_end(y)
        }),
    decreases y.len(),
{
    let z = seq![c] + y;
    if y.len() == 0 {
        assert(z =~= seq![c]);
        assert(z.drop_last() =~= Seq::<char>::empty());
        assert(trim_end(Seq::<char>::empty()) == Seq::<char>::empty());
        assert(trim_end(y) == Seq::<char>::empty());
        assert(seq![c] + Seq::<char>::empty() =~= seq![c]);
        if is_ws(c) {
            assert(trim_end(z) == trim_end(z.drop_last()));
        } else {
            assert(trim_end(z) == z);
        }
    } else if is_ws(y.last()) {
        assert(z.last() == y.last());
        assert(z.drop_last() =~= seq![c] + y.drop_last());
        lemma_trim_end_prepend(c, y.drop_last());
    } else {
        assert(z.last() == y.last());
    }
}

/// Trimming the end twice is trimming it once.
pub proof fn lemma_trim_end_twice(x: Seq<char>)
    ensures
        trim_end(trim_end(x)) == trim_end(x),
    decreases x.len(),
{
    if x.len() > 0 && is_ws(x.last()) {
        lemma_trim_end_twice(x.drop_last());
    }
}

/// Trimming the start and trimming the end can be done in either order.
pub proof fn lemma_trim_commute(x: Seq<char>)
    ensures
        trim_end(trim_start(x)) == trim_start(trim_end(x)),
    decreases x.len(),
{
    if x.len() > 0 {
        let y = x.drop_first();
        assert(x =~= seq![x[0]] + y);
        lemma_trim_end_prepend(x[0], y);
        if is_ws(x[0]) {
            lemma_trim_commute(y);
            if trim_end(y).len() > 0 {
                let t = seq![x[0]] + trim_end(y);
                assert(t.drop_first() =~= trim_end(y));
            }
        } else {
            let t = seq![x[0]] + trim_end(y);
            assert(t[0] == x[0]);
        }
    }
}

/// Trimming what had its end trimmed is trimming.
pub proof fn lemma_trimmed_trim_end(x: Seq<char>)
    ensures
        trimmed(trim_end(x)) == trimmed(x),
{
    lemma_trim_commute(trim_end(x));
    lemma_trim_commute(x);
    lemma_trim_end_twice(trim_start(x));
    lemma_trim_end_twice(x);
    lemma_trim_commute(trim_end(x));
}

/// Trimming the end of `a` followed by `x`, when `a` ends with a non-whitespace
/// character, only trims `x`.
pub proof fn lemma_trim_end_append(a: Seq<char>, x: Seq<char>)
    requires
        a.len() > 0,
        !is_ws(a.last()),
    ensures
        trim_end(a + x) == a + trim_end(x),
    decreases x.len(),
{
    if x.len() == 0 {
        assert(a + x =~= a);
        assert(a + trim_end(x) =~= a);
    } else if is_ws(x.last()) {
        assert((a + x).drop_last() =~= a + x.drop_last());
        lemma_trim_end_append(a, x.drop_last());
    } else {
        assert((a + x).last() == x.last());
    }
}

/// Trimming the start keeps a suffix.
pub proof fn lemma_trim_start_range(y: Seq<char>) -> (k: int)
    ensures
        0 <= k <= y.len(),
        trim_start(y) == y.subrange(k, y.len() as int),
    decreases y.len(),
{
    if y.len() > 0 && is_ws(y[0]) {
        let k1 = lemma_trim_start_range(y.drop_first());
        assert(y.drop_first().subrange(k1, y.len() - 1) =~= y.subrange(k1 + 1, y.len() as int));
        k1 + 1
    } else {
        assert(y.subrange(0, y.len() as int) =~= y);
        0
    }
}

/// Trimming the end keeps a prefix.
pub proof fn lemma_trim_end_range(y: Seq<char>) -> (m: int)
    ensures
        0 <= m <= y.len(),
        trim_end(y) == y.subrange(0, m),
    decreases y.len(),
{
    if y.len() > 0 && is_ws(y.last()) {
        let m1 = lemma_trim_end_range(y.drop_last());
        assert(y.drop_last().subrange(0, m1) =~= y.subrange(0, m1));
        m1
    } else {
        assert(y.subrange(0, y.len() as int) =~= y);
        y.len() as int
    }
}

/// Trimming keeps a contiguous part.
pub proof fn lemma_trimmed_range(y: Seq<char>) -> (km: (int, int))
    ensures
        0 <= km.0 <= km.1 <= y.len(),
        trimmed(y) == y.subrange(km.0, km.1),
{
    let k = lemma_trim_start_range(y);
    let m = lemma_trim_end_range(trim_start(y));
    assert(y.subrange(k, y.len() as int).subrange(0, m) =~= y.subrange(k, k + m));
    (k, k + m)
}

/// Trimming the start twice is trimming it once.
pub proof fn lemma_trim_start_twice(x: Seq<char>)
    ensures
        trim_start(trim_start(x)) == trim_start(x),
    decreases x.len(),
{
    if x.len() > 0 && is_ws(x[0]) {
        lemma_trim_start_twice(x.drop_first());
    }
}

/// Trimming twice is trimming once.
pub proof fn lemma_trimmed_twice(x: Seq<char>)
    ensures
        trimmed(trimmed(x)) == trimmed(x),
{
    let a = trim_start(x);
    lemma_trim_commute(trim_end(a));
    lemma_trim_commute(a);
    lemma_trim_start_twice(x);
    lemma_trim_end_twice(a);
    // trimmed(trimmed(x)) = te(ts(te(a))) = te(te(ts(a))) = te(ts(a)) = te(a)
    lemma_trim_end_twice(trim_start(a));
}

} // verus!
