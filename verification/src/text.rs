//! Character-level text operations with sequence specifications.
//!
//! Text is handled as decoded characters (`Vec<char>`, viewed as `Seq<char>`),
//! so that every operation has a direct mathematical statement.

use vstd::prelude::*;
use vstd::string::StringExecFns;

verus! {

/// `String::push`: appends one character to the end of the string.
pub assume_specification[ String::push ](s: &mut String, c: char)
    ensures
        final(s)@ == old(s)@.push(c),
;

/// A character has the Unicode `White_Space` property: it is one of the 25
/// code points that the property names. They are the controls from the
/// tabulator to the carriage return, the space, the next-line control, the
/// no-break space, the Ogham space mark, the spaces from the en quad to the
/// hair space, the line and the paragraph separator, the narrow no-break
/// space, the medium mathematical space and the ideographic space.
pub open spec fn is_whitespace(c: char) -> bool {
    ||| '\u{9}' <= c <= '\u{D}'
    ||| c == ' '
    ||| c == '\u{85}'
    ||| c == '\u{A0}'
    ||| c == '\u{1680}'
    ||| '\u{2000}' <= c <= '\u{200A}'
    ||| c == '\u{2028}'
    ||| c == '\u{2029}'
    ||| c == '\u{202F}'
    ||| c == '\u{205F}'
    ||| c == '\u{3000}'
}

/// Whether `c` has the Unicode `White_Space` property.
pub fn char_is_whitespace(c: char) -> (r: bool)
    ensures
        r == is_whitespace(c),
{
    (c >= '\u{9}' && c <= '\u{D}') || c == ' ' || c == '\u{85}' || c == '\u{A0}' || c
        == '\u{1680}' || (c >= '\u{2000}' && c <= '\u{200A}') || c == '\u{2028}' || c
        == '\u{2029}' || c == '\u{202F}' || c == '\u{205F}' || c == '\u{3000}'
}

/// The lowercase form of a text under the Unicode case mapping.
pub uninterp spec fn lowercase(s: Seq<char>) -> Seq<char>;

/// `str::to_lowercase`: the lowercase equivalent of the string, as a new
/// `String`. The result depends on the characters of the input alone.
pub assume_specification[ str::to_lowercase ](s: &str) -> (r: String)
    ensures
        r@ == lowercase(s@),
;

/// The characters of `s`, in order.
pub fn chars_of(s: &str) -> (v: Vec<char>)
    ensures
        v@ == s@,
{
    let mut v: Vec<char> = Vec::new();
    for c in it: s.chars()
        invariant
            v@ == it.seq().take(it.index() as int),
            it.seq() == s@,
    {
        v.push(c);
    }
    v
}

/// The string made of `chars`, in order.
pub fn string_of(chars: &Vec<char>) -> (s: String)
    ensures
        s@ == chars@,
{
    let mut s = String::new();
    let mut i: usize = 0;
    while i < chars.len()
        invariant
            i <= chars.len(),
            s@ == chars@.take(i as int),
        decreases chars.len() - i,
    {
        s.push(chars[i]);
        i += 1;
    }
    s
}

/// Whether two character vectors hold the same text.
pub fn same_chars(a: &Vec<char>, b: &Vec<char>) -> (r: bool)
    ensures
        r == (a@ == b@),
{
    if a.len() != b.len() {
        return false;
    }
    let mut i: usize = 0;
    while i < a.len()
        invariant
            i <= a.len(),
            a.len() == b.len(),
            forall|k: int| 0 <= k < i ==> a@[k] == b@[k],
        decreases a.len() - i,
    {
        if a[i] != b[i] {
            return false;
        }
        i += 1;
    }
    proof {
        assert(a@ =~= b@);
    }
    true
}

/// Whether two strings hold the same text.
pub fn same_text(a: &str, b: &str) -> (r: bool)
    ensures
        r == (a@ == b@),
{
    let x = chars_of(a);
    let y = chars_of(b);
    same_chars(&x, &y)
}

/// A copy of the characters of `v` from index `from` up to, not including, `to`.
pub fn slice_chars(v: &Vec<char>, from: usize, to: usize) -> (r: Vec<char>)
    requires
        from <= to <= v.len(),
    ensures
        r@ == v@.subrange(from as int, to as int),
{
    let mut r: Vec<char> = Vec::new();
    let mut i: usize = from;
    while i < to
        invariant
            from <= i <= to,
            to <= v.len(),
            r@ == v@.subrange(from as int, i as int),
        decreases to - i,
    {
        r.push(v[i]);
        i += 1;
    }
    r
}

/// Appends the characters of `tail` to `v`.
pub fn append_chars(v: &mut Vec<char>, tail: &Vec<char>)
    ensures
        final(v)@ == old(v)@ + tail@,
{
    let mut i: usize = 0;
    while i < tail.len()
        invariant
            i <= tail.len(),
            v@ == old(v)@ + tail@.take(i as int),
        decreases tail.len() - i,
    {
        v.push(tail[i]);
        i += 1;
    }
    proof {
        assert(tail@.take(tail.len() as int) =~= tail@);
    }
}

/// `pat` stands in `s` at index `i`.
pub open spec fn occurs_at(s: Seq<char>, pat: Seq<char>, i: int) -> bool {
    &&& 0 <= i
    &&& i + pat.len() <= s.len()
    &&& s.subrange(i, i + pat.len()) == pat
}

/// `pat` stands somewhere in `s`.
pub open spec fn occurs(s: Seq<char>, pat: Seq<char>) -> bool {
    exists|i: int| occurs_at(s, pat, i)
}

/// `s` begins with `pat`.
pub open spec fn has_prefix(s: Seq<char>, pat: Seq<char>) -> bool {
    occurs_at(s, pat, 0)
}

/// The index of the first occurrence of `pat` in `s` at or after `from`.
pub open spec fn find_from(s: Seq<char>, pat: Seq<char>, from: int) -> Option<int>
    decreases s.len() - from + 1,
{
    if from < 0 || from + pat.len() > s.len() {
        None
    } else if occurs_at(s, pat, from) {
        Some(from)
    } else {
        find_from(s, pat, from + 1)
    }
}

/// What `find_from` finds is the leftmost occurrence at or after `from`, and it
/// finds one whenever there is one.
pub proof fn lemma_find_from(s: Seq<char>, pat: Seq<char>, from: int)
    requires
        0 <= from,
    ensures
        match find_from(s, pat, from) {
            Some(i) => from <= i && occurs_at(s, pat, i) && forall|j: int|
                from <= j < i ==> !occurs_at(s, pat, j),
            None => forall|j: int| from <= j ==> !occurs_at(s, pat, j),
        },
    decreases s.len() - from + 1,
{
    if from + pat.len() > s.len() {
    } else if occurs_at(s, pat, from) {
    } else {
        lemma_find_from(s, pat, from + 1);
    }
}

/// A text holds a pattern exactly when a search from its start finds it.
pub proof fn lemma_occurs_iff_found(s: Seq<char>, pat: Seq<char>)
    ensures
        occurs(s, pat) <==> find_from(s, pat, 0) is Some,
{
    lemma_find_from(s, pat, 0);
}

/// Whether `pat` stands in `s` at index `i`.
pub fn matches_at(s: &Vec<char>, pat: &Vec<char>, i: usize) -> (r: bool)
    ensures
        r == occurs_at(s@, pat@, i as int),
{
    if pat.len() > s.len() || i > s.len() - pat.len() {
        return false;
    }
    let mut j: usize = 0;
    while j < pat.len()
        invariant
            j <= pat.len(),
            i + pat.len() <= s.len(),
            forall|k: int| 0 <= k < j ==> s@[i + k] == pat@[k],
        decreases pat.len() - j,
    {
        if s[i + j] != pat[j] {
            proof {
                assert(s@.subrange(i as int, i + pat.len())[j as int] == s@[i + j]);
            }
            return false;
        }
        j += 1;
    }
    proof {
        assert(s@.subrange(i as int, i + pat.len()) =~= pat@);
    }
    true
}

/// The index of the first occurrence of `pat` in `s` at or after `from`.
pub fn find(s: &Vec<char>, pat: &Vec<char>, from: usize) -> (r: Option<usize>)
    ensures
        match r {
            Some(i) => find_from(s@, pat@, from as int) == Some(i as int),
            None => find_from(s@, pat@, from as int) is None,
        },
{
    if pat.len() > s.len() || from > s.len() - pat.len() {
        return None;
    }
    let last: usize = s.len() - pat.len();
    let mut i: usize = from;
    while i < last
        invariant
            from <= i <= last,
            last == s.len() - pat.len(),
            find_from(s@, pat@, from as int) == find_from(s@, pat@, i as int),
        decreases last - i,
    {
        if matches_at(s, pat, i) {
            return Some(i);
        }
        i += 1;
    }
    if matches_at(s, pat, i) {
        Some(i)
    } else {
        proof {
            assert(find_from(s@, pat@, i + 1) is None);
        }
        None
    }
}

/// Whether `pat` stands somewhere in `s`.
pub fn contains(s: &Vec<char>, pat: &Vec<char>) -> (r: bool)
    ensures
        r == occurs(s@, pat@),
{
    proof {
        lemma_occurs_iff_found(s@, pat@);
    }
    find(s, pat, 0).is_some()
}

/// Whether the string `s` holds the string `pat`.
pub fn str_contains(s: &str, pat: &str) -> (r: bool)
    ensures
        r == occurs(s@, pat@),
{
    let x = chars_of(s);
    let y = chars_of(pat);
    contains(&x, &y)
}

/// Whether `s` begins with `pat`.
pub fn starts_with(s: &Vec<char>, pat: &Vec<char>) -> (r: bool)
    ensures
        r == has_prefix(s@, pat@),
{
    matches_at(s, pat, 0)
}

/// `c` is one of the ASCII digits `0` to `9`.
pub open spec fn is_digit(c: char) -> bool {
    '0' <= c && c <= '9'
}

/// Whether `c` is an ASCII digit.
pub fn char_is_digit(c: char) -> (r: bool)
    ensures
        r == is_digit(c),
{
    c >= '0' && c <= '9'
}

/// Whether the character `c` occurs in `s`.
pub fn has_char(s: &Vec<char>, c: char) -> (r: bool)
    ensures
        r == s@.contains(c),
{
    let mut i: usize = 0;
    while i < s.len()
        invariant
            i <= s.len(),
            forall|k: int| 0 <= k < i ==> s@[k] != c,
        decreases s.len() - i,
    {
        if s[i] == c {
            return true;
        }
        i += 1;
    }
    false
}

/// Whether some character of `s` is an ASCII digit.
pub fn has_digit(s: &Vec<char>) -> (r: bool)
    ensures
        r == exists|k: int| 0 <= k < s@.len() && is_digit(#[trigger] s@[k]),
{
    let mut i: usize = 0;
    while i < s.len()
        invariant
            i <= s.len(),
            forall|k: int| 0 <= k < i ==> !is_digit(#[trigger] s@[k]),
        decreases s.len() - i,
    {
        if char_is_digit(s[i]) {
            return true;
        }
        i += 1;
    }
    false
}

/// The texts held by a sequence of character vectors.
pub open spec fn texts(v: Seq<Vec<char>>) -> Seq<Seq<char>> {
    v.map_values(|w: Vec<char>| w@)
}

/// The texts held by a sequence of strings.
pub open spec fn views(v: Seq<String>) -> Seq<Seq<char>> {
    v.map_values(|w: String| w@)
}

/// `s` without its leading whitespace.
pub open spec fn trimmed_start(s: Seq<char>) -> Seq<char>
    decreases s.len(),
{
    if s.len() > 0 && is_whitespace(s[0]) {
        trimmed_start(s.drop_first())
    } else {
        s
    }
}

/// `s` without its trailing whitespace.
pub open spec fn trimmed_end(s: Seq<char>) -> Seq<char>
    decreases s.len(),
{
    if s.len() > 0 && is_whitespace(s.last()) {
        trimmed_end(s.drop_last())
    } else {
        s
    }
}

/// `s` without leading and trailing whitespace.
pub open spec fn trimmed(s: Seq<char>) -> Seq<char> {
    trimmed_end(trimmed_start(s))
}

/// A copy of `s` without leading and trailing whitespace.
pub fn trim(s: &Vec<char>) -> (r: Vec<char>)
    ensures
        r@ == trimmed(s@),
{
    let n: usize = s.len();
    let mut a: usize = 0;
    proof {
        assert(s@.skip(0) =~= s@);
    }
    while a < n && char_is_whitespace(s[a])
        invariant
            a <= n,
            n == s.len(),
            trimmed_start(s@) == trimmed_start(s@.skip(a as int)),
        decreases n - a,
    {
        proof {
            assert(s@.skip(a as int).drop_first() =~= s@.skip(a + 1));
        }
        a += 1;
    }
    proof {
        assert(s@.skip(a as int) =~= s@.subrange(a as int, n as int));
    }
    let mut b: usize = n;
    while b > a && char_is_whitespace(s[b - 1])
        invariant
            a <= b <= n,
            n == s.len(),
            trimmed_end(s@.subrange(a as int, n as int)) == trimmed_end(
                s@.subrange(a as int, b as int),
            ),
        decreases b - a,
    {
        proof {
            assert(s@.subrange(a as int, b as int).drop_last() =~= s@.subrange(
                a as int,
                b - 1,
            ));
        }
        b -= 1;
    }
    slice_chars(s, a, b)
}

/// The word collected so far, as a list of at most one word.
pub open spec fn flush(cur: Seq<char>) -> Seq<Seq<char>> {
    if cur.len() > 0 {
        seq![cur]
    } else {
        Seq::empty()
    }
}

/// The words of `s` from index `i` on, where `cur` holds the characters of the
/// word that is open at `i`.
pub open spec fn words_from(s: Seq<char>, i: int, cur: Seq<char>) -> Seq<Seq<char>>
    decreases s.len() - i,
{
    if i < 0 || i >= s.len() {
        flush(cur)
    } else if is_whitespace(s[i]) {
        flush(cur) + words_from(s, i + 1, Seq::empty())
    } else {
        words_from(s, i + 1, cur.push(s[i]))
    }
}

/// The maximal runs of non-whitespace characters of `s`, in order.
pub open spec fn words_of(s: Seq<char>) -> Seq<Seq<char>> {
    words_from(s, 0, Seq::empty())
}

/// The maximal runs of non-whitespace characters of `s`, in order.
pub fn words(s: &Vec<char>) -> (r: Vec<Vec<char>>)
    ensures
        texts(r@) == words_of(s@),
{
    let mut out: Vec<Vec<char>> = Vec::new();
    let mut cur: Vec<char> = Vec::new();
    let mut i: usize = 0;
    proof {
        assert(texts(out@) + words_from(s@, 0, cur@) =~= words_of(s@));
    }
    while i < s.len()
        invariant
            i <= s.len(),
            texts(out@) + words_from(s@, i as int, cur@) == words_of(s@),
        decreases s.len() - i,
    {
        let c = s[i];
        let ghost total = words_from(s@, i as int, cur@);
        if char_is_whitespace(c) {
            let ghost rest = words_from(s@, i + 1, Seq::empty());
            assert(total == flush(cur@) + rest);
            if cur.len() > 0 {
                let ghost before = out@;
                let ghost word = cur@;
                out.push(cur);
                cur = Vec::new();
                proof {
                    assert(texts(out@) =~= texts(before) + seq![word]);
                    assert(texts(out@) + rest =~= texts(before) + (seq![word] + rest));
                }
            } else {
                proof {
                    assert(flush(cur@) + rest =~= rest);
                    assert(cur@ =~= Seq::<char>::empty());
                }
            }
        } else {
            assert(total == words_from(s@, i + 1, cur@.push(c)));
            cur.push(c);
        }
        i += 1;
    }
    if cur.len() > 0 {
        let ghost before = out@;
        let ghost word = cur@;
        out.push(cur);
        proof {
            assert(texts(out@) =~= texts(before) + seq![word]);
        }
    } else {
        proof {
            assert(texts(out@) + flush(cur@) =~= texts(out@));
        }
    }
    out
}

/// `line` without one trailing carriage return.
pub open spec fn without_cr(line: Seq<char>) -> Seq<char> {
    if line.len() > 0 && line.last() == '\r' {
        line.drop_last()
    } else {
        line
    }
}

/// The lines of `s` from index `i` on, where `cur` holds the characters of the
/// line that is open at `i`.
pub open spec fn lines_from(s: Seq<char>, i: int, cur: Seq<char>) -> Seq<Seq<char>>
    decreases s.len() - i,
{
    if i < 0 || i >= s.len() {
        flush(cur)
    } else if s[i] == '\n' {
        seq![without_cr(cur)] + lines_from(s, i + 1, Seq::empty())
    } else {
        lines_from(s, i + 1, cur.push(s[i]))
    }
}

/// The lines of `s`: a line ends at a line feed, or at a carriage return
/// directly followed by one; the last line needs no line ending, and a text
/// that ends in a line ending has no empty last line.
pub open spec fn lines_of(s: Seq<char>) -> Seq<Seq<char>> {
    lines_from(s, 0, Seq::empty())
}

/// The lines of `s`, without their line endings.
pub fn lines(s: &Vec<char>) -> (r: Vec<Vec<char>>)
    ensures
        texts(r@) == lines_of(s@),
{
    let mut out: Vec<Vec<char>> = Vec::new();
    let mut cur: Vec<char> = Vec::new();
    let mut i: usize = 0;
    proof {
        assert(texts(out@) + lines_from(s@, 0, cur@) =~= lines_of(s@));
    }
    while i < s.len()
        invariant
            i <= s.len(),
            texts(out@) + lines_from(s@, i as int, cur@) == lines_of(s@),
        decreases s.len() - i,
    {
        let c = s[i];
        if c == '\n' {
            let ghost before = out@;
            let ghost line = without_cr(cur@);
            let ghost rest = lines_from(s@, i + 1, Seq::empty());
            let n: usize = cur.len();
            if n > 0 && cur[n - 1] == '\r' {
                cur.pop();
            }
            out.push(cur);
            cur = Vec::new();
            proof {
                assert(texts(out@) =~= texts(before) + seq![line]);
                assert(texts(out@) + rest =~= texts(before) + (seq![line] + rest));
            }
        } else {
            cur.push(c);
        }
        i += 1;
    }
    if cur.len() > 0 {
        let ghost before = out@;
        let ghost line = cur@;
        out.push(cur);
        proof {
            assert(texts(out@) =~= texts(before) + seq![line]);
        }
    } else {
        proof {
            assert(texts(out@) + flush(cur@) =~= texts(out@));
        }
    }
    out
}

/// The pieces of `s` between the occurrences of `pat`, searched from index `i`
/// on, where the open piece begins at `start`.
pub open spec fn pieces_from(s: Seq<char>, pat: Seq<char>, i: int, start: int) -> Seq<Seq<char>>
    decreases s.len() - i,
{
    if i < 0 || pat.len() == 0 || i + pat.len() > s.len() {
        seq![s.subrange(start, s.len() as int)]
    } else if occurs_at(s, pat, i) {
        seq![s.subrange(start, i)] + pieces_from(s, pat, i + pat.len(), i + pat.len())
    } else {
        pieces_from(s, pat, i + 1, start)
    }
}

/// The pieces of `s` between the occurrences of `pat`, which are taken from
/// the left and do not overlap. Empty pieces count. An empty pattern splits
/// nothing.
pub open spec fn pieces(s: Seq<char>, pat: Seq<char>) -> Seq<Seq<char>> {
    pieces_from(s, pat, 0, 0)
}

/// The pieces of `s` between the occurrences of `pat`.
pub fn split_on(s: &Vec<char>, pat: &Vec<char>) -> (r: Vec<Vec<char>>)
    ensures
        texts(r@) == pieces(s@, pat@),
{
    let mut out: Vec<Vec<char>> = Vec::new();
    let n: usize = s.len();
    let m: usize = pat.len();
    let mut i: usize = 0;
    let mut start: usize = 0;
    proof {
        assert(texts(out@) + pieces_from(s@, pat@, 0, 0) =~= pieces(s@, pat@));
    }
    while m > 0 && m <= n && i <= n - m
        invariant
            start <= i <= n,
            n == s.len(),
            m == pat.len(),
            texts(out@) + pieces_from(s@, pat@, i as int, start as int) == pieces(s@, pat@),
        decreases n - i,
    {
        if matches_at(s, pat, i) {
            let ghost before = out@;
            let ghost rest = pieces_from(s@, pat@, i + m, i + m);
            let piece = slice_chars(s, start, i);
            out.push(piece);
            proof {
                assert(texts(out@) =~= texts(before) + seq![piece@]);
                assert(texts(out@) + rest =~= texts(before) + (seq![piece@] + rest));
            }
            i += m;
            start = i;
        } else {
            i += 1;
        }
    }
    let ghost before = out@;
    let piece = slice_chars(s, start, n);
    out.push(piece);
    proof {
        assert(texts(out@) =~= texts(before) + seq![piece@]);
    }
    out
}

/// `s` without the occurrences of `pat`, searched from index `i` on, where the
/// part that is kept begins at `start`.
pub open spec fn without_from(s: Seq<char>, pat: Seq<char>, i: int, start: int) -> Seq<char>
    decreases s.len() - i,
{
    if i < 0 || pat.len() == 0 || i + pat.len() > s.len() {
        s.subrange(start, s.len() as int)
    } else if occurs_at(s, pat, i) {
        s.subrange(start, i) + without_from(s, pat, i + pat.len(), i + pat.len())
    } else {
        without_from(s, pat, i + 1, start)
    }
}

/// `s` without the occurrences of `pat`, which are taken from the left and do
/// not overlap.
pub open spec fn without(s: Seq<char>, pat: Seq<char>) -> Seq<char> {
    without_from(s, pat, 0, 0)
}

/// A copy of `s` without the occurrences of `pat`.
pub fn remove_all(s: &Vec<char>, pat: &Vec<char>) -> (r: Vec<char>)
    ensures
        r@ == without(s@, pat@),
{
    let mut out: Vec<char> = Vec::new();
    let n: usize = s.len();
    let m: usize = pat.len();
    let mut i: usize = 0;
    let mut start: usize = 0;
    proof {
        assert(out@ + without_from(s@, pat@, 0, 0) =~= without(s@, pat@));
    }
    while m > 0 && m <= n && i <= n - m
        invariant
            start <= i <= n,
            n == s.len(),
            m == pat.len(),
            out@ + without_from(s@, pat@, i as int, start as int) == without(s@, pat@),
        decreases n - i,
    {
        if matches_at(s, pat, i) {
            let ghost before = out@;
            let ghost rest = without_from(s@, pat@, i + m, i + m);
            let piece = slice_chars(s, start, i);
            append_chars(&mut out, &piece);
            proof {
                assert(out@ + rest =~= before + (piece@ + rest));
            }
            i += m;
            start = i;
        } else {
            i += 1;
        }
    }
    let piece = slice_chars(s, start, n);
    append_chars(&mut out, &piece);
    out
}

/// The texts of `parts` in one text, with `sep` between neighbours.
pub open spec fn joined(parts: Seq<Seq<char>>, sep: Seq<char>) -> Seq<char>
    decreases parts.len(),
{
    if parts.len() == 0 {
        Seq::empty()
    } else if parts.len() == 1 {
        parts[0]
    } else {
        joined(parts.drop_last(), sep) + sep + parts.last()
    }
}

/// The texts of `parts` in one text, with `sep` between neighbours.
pub fn join(parts: &Vec<Vec<char>>, sep: &Vec<char>) -> (r: Vec<char>)
    ensures
        r@ == joined(texts(parts@), sep@),
{
    let mut out: Vec<char> = Vec::new();
    let mut i: usize = 0;
    proof {
        assert(texts(parts@).take(0) =~= Seq::<Seq<char>>::empty());
    }
    while i < parts.len()
        invariant
            i <= parts.len(),
            out@ == joined(texts(parts@).take(i as int), sep@),
        decreases parts.len() - i,
    {
        proof {
            let next = texts(parts@).take(i + 1);
            assert(next.drop_last() =~= texts(parts@).take(i as int));
            assert(next.last() == parts@[i as int]@);
            if i == 0 {
                assert(out@ + parts@[i as int]@ =~= parts@[i as int]@);
            }
        }
        if i > 0 {
            append_chars(&mut out, sep);
        }
        append_chars(&mut out, &parts[i]);
        i += 1;
    }
    proof {
        assert(texts(parts@).take(parts.len() as int) =~= texts(parts@));
    }
    out
}

/// The character of the decimal digit `d`.
pub open spec fn digit_char(d: nat) -> char {
    if d == 0 {
        '0'
    } else if d == 1 {
        '1'
    } else if d == 2 {
        '2'
    } else if d == 3 {
        '3'
    } else if d == 4 {
        '4'
    } else if d == 5 {
        '5'
    } else if d == 6 {
        '6'
    } else if d == 7 {
        '7'
    } else if d == 8 {
        '8'
    } else {
        '9'
    }
}

/// The decimal numeral of `n`, without leading zeros.
pub open spec fn decimal(n: nat) -> Seq<char>
    decreases n,
{
    if n < 10 {
        seq![digit_char(n)]
    } else {
        decimal(n / 10).push(digit_char(n % 10))
    }
}

/// The character of the decimal digit `d`.
pub fn digit(d: u128) -> (c: char)
    requires
        d < 10,
    ensures
        c == digit_char(d as nat),
{
    if d == 0 {
        '0'
    } else if d == 1 {
        '1'
    } else if d == 2 {
        '2'
    } else if d == 3 {
        '3'
    } else if d == 4 {
        '4'
    } else if d == 5 {
        '5'
    } else if d == 6 {
        '6'
    } else if d == 7 {
        '7'
    } else if d == 8 {
        '8'
    } else {
        '9'
    }
}

/// Appends the decimal numeral of `n` to `out`.
pub fn push_decimal(out: &mut Vec<char>, n: u128)
    ensures
        final(out)@ == old(out)@ + decimal(n as nat),
    decreases n,
{
    if n >= 10 {
        push_decimal(out, n / 10);
    }
    out.push(digit(n % 10));
    proof {
        if n >= 10 {
            assert(final(out)@ =~= old(out)@ + decimal(n as nat));
        } else {
            assert(final(out)@ =~= old(out)@ + decimal(n as nat));
        }
    }
}

/// Appends the characters of the string `tail` to `out`.
pub fn push_str(out: &mut Vec<char>, tail: &str)
    ensures
        final(out)@ == old(out)@ + tail@,
{
    let t = chars_of(tail);
    append_chars(out, &t);
}

/// A list of one string.
pub fn list1(a: &str) -> (r: Vec<String>)
    ensures
        views(r@) == seq![a@],
{
    let mut r: Vec<String> = Vec::new();
    r.push(String::from_str(a));
    proof {
        assert(views(r@) =~= seq![a@]);
    }
    r
}

/// A list of two strings.
pub fn list2(a: &str, b: &str) -> (r: Vec<String>)
    ensures
        views(r@) == seq![a@, b@],
{
    let mut r: Vec<String> = Vec::new();
    r.push(String::from_str(a));
    r.push(String::from_str(b));
    proof {
        assert(views(r@) =~= seq![a@, b@]);
    }
    r
}

/// A list of three strings.
pub fn list3(a: &str, b: &str, c: &str) -> (r: Vec<String>)
    ensures
        views(r@) == seq![a@, b@, c@],
{
    let mut r: Vec<String> = Vec::new();
    r.push(String::from_str(a));
    r.push(String::from_str(b));
    r.push(String::from_str(c));
    proof {
        assert(views(r@) =~= seq![a@, b@, c@]);
    }
    r
}

/// A list of four strings.
pub fn list4(a: &str, b: &str, c: &str, d: &str) -> (r: Vec<String>)
    ensures
        views(r@) == seq![a@, b@, c@, d@],
{
    let mut r: Vec<String> = Vec::new();
    r.push(String::from_str(a));
    r.push(String::from_str(b));
    r.push(String::from_str(c));
    r.push(String::from_str(d));
    proof {
        assert(views(r@) =~= seq![a@, b@, c@, d@]);
    }
    r
}

/// `cur` holds no whitespace.
pub open spec fn is_run(cur: Seq<char>) -> bool {
    forall|k: int| 0 <= k < cur.len() ==> !is_whitespace(#[trigger] cur[k])
}

/// Every word is a run of characters that holds no whitespace, and at least
/// one character.
pub proof fn lemma_words_are_runs(s: Seq<char>, i: int, cur: Seq<char>)
    requires
        0 <= i,
        is_run(cur),
    ensures
        forall|k: int|
            0 <= k < words_from(s, i, cur).len() ==> (#[trigger] words_from(s, i, cur)[k]).len() > 0
                && is_run(words_from(s, i, cur)[k]),
    decreases s.len() - i,
{
    let all = words_from(s, i, cur);
    if i < s.len() {
        if is_whitespace(s[i]) {
            let rest = words_from(s, i + 1, Seq::empty());
            lemma_words_are_runs(s, i + 1, Seq::empty());
            assert forall|k: int| 0 <= k < all.len() implies (#[trigger] all[k]).len() > 0
                && is_run(all[k]) by {
                if k < flush(cur).len() {
                    assert(all[k] == cur);
                } else {
                    assert(all[k] == rest[k - flush(cur).len()]);
                }
            }
        } else {
            let next = cur.push(s[i]);
            assert forall|k: int| 0 <= k < next.len() implies !is_whitespace(
                #[trigger] next[k],
            ) by {
                if k < cur.len() {
                    assert(next[k] == cur[k]);
                }
            }
            lemma_words_are_runs(s, i + 1, next);
            let rest = words_from(s, i + 1, next);
            assert(all == rest);
            assert forall|k: int| 0 <= k < all.len() implies (#[trigger] all[k]).len() > 0
                && is_run(all[k]) by {
                assert(all[k] == rest[k]);
            }
        }
    } else {
        assert forall|k: int| 0 <= k < all.len() implies (#[trigger] all[k]).len() > 0 && is_run(
            all[k],
        ) by {
            assert(all[k] == cur);
        }
    }
}

/// No line holds a line feed.
pub proof fn lemma_lines_hold_no_line_feed(s: Seq<char>, i: int, cur: Seq<char>)
    requires
        0 <= i,
        !cur.contains('\n'),
    ensures
        forall|k: int|
            0 <= k < lines_from(s, i, cur).len() ==> !(#[trigger] lines_from(s, i, cur)[k]).contains(
                '\n',
            ),
    decreases s.len() - i,
{
    let all = lines_from(s, i, cur);
    if i < s.len() {
        if s[i] == '\n' {
            let rest = lines_from(s, i + 1, Seq::empty());
            assert(!Seq::<char>::empty().contains('\n'));
            lemma_lines_hold_no_line_feed(s, i + 1, Seq::empty());
            assert(!without_cr(cur).contains('\n')) by {
                if without_cr(cur).contains('\n') {
                    let k = choose|k: int|
                        0 <= k < without_cr(cur).len() && without_cr(cur)[k] == '\n';
                    assert(cur[k] == '\n');
                }
            }
            assert forall|k: int| 0 <= k < all.len() implies !(#[trigger] all[k]).contains(
                '\n',
            ) by {
                if k == 0 {
                    assert(all[k] == without_cr(cur));
                } else {
                    assert(all[k] == rest[k - 1]);
                }
            }
        } else {
            let next = cur.push(s[i]);
            assert(!next.contains('\n')) by {
                if next.contains('\n') {
                    let k = choose|k: int| 0 <= k < next.len() && next[k] == '\n';
                    if k < cur.len() {
                        assert(cur[k] == '\n');
                    }
                }
            }
            lemma_lines_hold_no_line_feed(s, i + 1, next);
            let rest = lines_from(s, i + 1, next);
            assert(all == rest);
            assert forall|k: int| 0 <= k < all.len() implies !(#[trigger] all[k]).contains(
                '\n',
            ) by {
                assert(all[k] == rest[k]);
            }
        }
    } else {
        assert forall|k: int| 0 <= k < all.len() implies !(#[trigger] all[k]).contains('\n') by {
            assert(all[k] == cur);
        }
    }
}

/// The words of a text are runs of characters that hold no whitespace, and
/// none of them is empty.
pub proof fn law_words_hold_no_whitespace(s: Seq<char>)
    ensures
        forall|k: int|
            0 <= k < words_of(s).len() ==> (#[trigger] words_of(s)[k]).len() > 0 && is_run(
                words_of(s)[k],
            ),
{
    lemma_words_are_runs(s, 0, Seq::empty());
}

/// No line of a text holds a line feed.
pub proof fn law_lines_hold_no_line_feed(s: Seq<char>)
    ensures
        forall|k: int| 0 <= k < lines_of(s).len() ==> !(#[trigger] lines_of(s)[k]).contains('\n'),
{
    assert(!Seq::<char>::empty().contains('\n'));
    lemma_lines_hold_no_line_feed(s, 0, Seq::empty());
}

/// Joining a first text and more texts puts the separator behind the first.
pub proof fn lemma_joined_first(a: Seq<char>, rest: Seq<Seq<char>>, sep: Seq<char>)
    requires
        rest.len() > 0,
    ensures
        joined(seq![a] + rest, sep) == a + sep + joined(rest, sep),
    decreases rest.len(),
{
    let all = seq![a] + rest;
    assert(all.drop_last() =~= seq![a] + rest.drop_last());
    assert(all.last() == rest.last());
    if rest.len() == 1 {
        assert(rest.drop_last() =~= Seq::<Seq<char>>::empty());
        assert(seq![a] + rest.drop_last() =~= seq![a]);
        assert(joined(seq![a], sep) == a);
        assert(joined(rest, sep) == rest[0]);
    } else {
        lemma_joined_first(a, rest.drop_last(), sep);
        assert(joined(all, sep) =~= a + sep + joined(rest, sep));
    }
}

/// The pieces from an index on, joined by the pattern, are the text from the
/// start of the open piece on.
pub proof fn lemma_pieces_join(s: Seq<char>, pat: Seq<char>, i: int, start: int)
    requires
        0 <= start <= i <= s.len(),
    ensures
        pieces_from(s, pat, i, start).len() > 0,
        joined(pieces_from(s, pat, i, start), pat) == s.subrange(start, s.len() as int),
    decreases s.len() - i,
{
    if pat.len() == 0 || i + pat.len() > s.len() {
    } else if occurs_at(s, pat, i) {
        let next = i + pat.len();
        let rest = pieces_from(s, pat, next, next);
        lemma_pieces_join(s, pat, next, next);
        lemma_joined_first(s.subrange(start, i), rest, pat);
        assert(s.subrange(start, i) + pat + s.subrange(next, s.len() as int) =~= s.subrange(
            start,
            s.len() as int,
        ));
    } else {
        lemma_pieces_join(s, pat, i + 1, start);
    }
}

/// Splitting a text on a pattern and joining the pieces with the pattern
/// gives the text back.
pub proof fn law_split_then_join(s: Seq<char>, pat: Seq<char>)
    ensures
        joined(pieces(s, pat), pat) == s,
{
    lemma_pieces_join(s, pat, 0, 0);
    assert(s.subrange(0, s.len() as int) =~= s);
}

/// A text without a pattern, from an index on, is its pieces joined by
/// nothing.
pub proof fn lemma_without_joins_pieces(s: Seq<char>, pat: Seq<char>, i: int, start: int)
    requires
        0 <= start <= i <= s.len(),
    ensures
        without_from(s, pat, i, start) == joined(pieces_from(s, pat, i, start), Seq::empty()),
    decreases s.len() - i,
{
    if pat.len() == 0 || i + pat.len() > s.len() {
    } else if occurs_at(s, pat, i) {
        let next = i + pat.len();
        let rest = pieces_from(s, pat, next, next);
        lemma_pieces_join(s, pat, next, next);
        lemma_without_joins_pieces(s, pat, next, next);
        lemma_joined_first(s.subrange(start, i), rest, Seq::empty());
        assert(s.subrange(start, i) + Seq::<char>::empty() =~= s.subrange(start, i));
    } else {
        lemma_without_joins_pieces(s, pat, i + 1, start);
    }
}

/// Removing a pattern from a text leaves the pieces between its occurrences,
/// one behind the other.
pub proof fn law_removing_joins_the_pieces(s: Seq<char>, pat: Seq<char>)
    ensures
        without(s, pat) == joined(pieces(s, pat), Seq::empty()),
{
    lemma_without_joins_pieces(s, pat, 0, 0);
}

/// What trimming at the start leaves is the end of the text, and begins with
/// no whitespace.
pub proof fn lemma_trimmed_start(s: Seq<char>)
    ensures
        exists|k: int| 0 <= k <= s.len() && #[trigger] s.skip(k) == trimmed_start(s),
        trimmed_start(s).len() > 0 ==> !is_whitespace(trimmed_start(s)[0]),
    decreases s.len(),
{
    if s.len() > 0 && is_whitespace(s[0]) {
        let t = s.drop_first();
        lemma_trimmed_start(t);
        let k = choose|k: int| 0 <= k <= t.len() && #[trigger] t.skip(k) == trimmed_start(t);
        assert(s.skip(k + 1) =~= t.skip(k));
    } else {
        assert(s.skip(0) =~= s);
    }
}

/// What trimming at the end leaves is the start of the text, and ends with
/// no whitespace.
pub proof fn lemma_trimmed_end(s: Seq<char>)
    ensures
        exists|k: int| 0 <= k <= s.len() && #[trigger] s.take(k) == trimmed_end(s),
        trimmed_end(s).len() > 0 ==> !is_whitespace(trimmed_end(s).last()),
    decreases s.len(),
{
    if s.len() > 0 && is_whitespace(s.last()) {
        let t = s.drop_last();
        lemma_trimmed_end(t);
        let k = choose|k: int| 0 <= k <= t.len() && #[trigger] t.take(k) == trimmed_end(t);
        assert(s.take(k) =~= t.take(k));
    } else {
        assert(s.take(s.len() as int) =~= s);
    }
}

/// A trimmed text neither begins nor ends with whitespace.
pub proof fn law_trimmed_ends_hold_no_whitespace(s: Seq<char>)
    ensures
        trimmed(s).len() > 0 ==> !is_whitespace(trimmed(s)[0]) && !is_whitespace(
            trimmed(s).last(),
        ),
{
    let t = trimmed_start(s);
    lemma_trimmed_start(s);
    lemma_trimmed_end(t);
    if trimmed(s).len() > 0 {
        let k = choose|k: int| 0 <= k <= t.len() && #[trigger] t.take(k) == trimmed_end(t);
        assert(t.take(k)[0] == t[0]);
    }
}

} // verus!
