use vstd::prelude::*;
use vstd::string::*;

verus! {

/// The texts that the strings `items` hold.
pub open spec fn texts(items: Seq<String>) -> Seq<Seq<char>> {
    Seq::new(items.len(), |i: int| items[i]@)
}

/// The characters of `s`.
pub fn chars_of(s: &String) -> (chars: Vec<char>)
    ensures
        chars@ == s@,
{
    let text = s.as_str();
    let n: usize = text.unicode_len();
    let mut chars: Vec<char> = Vec::new();
    let mut i: usize = 0;
    while i < n
        invariant
            n == text@.len(),
            i <= n,
            chars@ == text@.take(i as int),
        decreases n - i,
    {
        chars.push(text.get_char(i));
        assert(text@.take(i + 1) =~= text@.take(i as int).push(text@[i as int]));
        i += 1;
    }
    assert(text@.take(n as int) =~= text@);
    chars
}

/// The code of `c` with the ASCII capitals folded onto the small letters:
/// text search tells no ASCII letter from its other case, and every other
/// character from every other.
pub open spec fn folded(c: char) -> int {
    if 'A' <= c && c <= 'Z' {
        c as int + 32
    } else {
        c as int
    }
}

/// The code of `c` with the ASCII capitals folded onto the small letters.
pub fn fold(c: char) -> (code: u32)
    ensures
        code == folded(c),
{
    if 'A' <= c && c <= 'Z' {
        c as u32 + 32
    } else {
        c as u32
    }
}

/// Whether the rest of `text` from position `j` matches the rest of
/// `pattern` from position `i`. In a pattern `%` stands for any run of
/// characters, the empty one too, `_` for any one character, and every other
/// character for itself in either case.
pub open spec fn like_from(pattern: Seq<char>, text: Seq<char>, i: int, j: int) -> bool
    decreases pattern.len() - i, text.len() - j,
{
    if i < 0 || j < 0 {
        false
    } else if i >= pattern.len() {
        j >= text.len()
    } else if pattern[i] == '%' {
        like_from(pattern, text, i + 1, j) || (j < text.len() && like_from(
            pattern,
            text,
            i,
            j + 1,
        ))
    } else if j >= text.len() {
        false
    } else if pattern[i] == '_' {
        like_from(pattern, text, i + 1, j + 1)
    } else {
        folded(pattern[i]) == folded(text[j]) && like_from(pattern, text, i + 1, j + 1)
    }
}

/// Whether `text` matches `pattern`.
pub open spec fn like(pattern: Seq<char>, text: Seq<char>) -> bool {
    like_from(pattern, text, 0, 0)
}

/// The pattern that a text matches when `term` occurs in it.
pub open spec fn contains_pattern(term: Seq<char>) -> Seq<char> {
    seq!['%'] + term + seq!['%']
}

/// Whether `term` occurs in `text`, as a search for `term` sees it.
pub open spec fn text_contains(text: Seq<char>, term: Seq<char>) -> bool {
    like(contains_pattern(term), text)
}

/// Whether `text` matches `pattern`.
pub fn like_match(pattern: &Vec<char>, text: &Vec<char>) -> (matched: bool)
    ensures
        matched == like(pattern@, text@),
{
    let m: usize = pattern.len();
    let n: usize = text.len();
    // row[j] says whether the text from j matches the pattern from i.
    let mut row: Vec<bool> = Vec::new();
    let mut j: usize = 0;
    while j < n
        invariant
            n == text@.len(),
            m == pattern@.len(),
            j <= n,
            row@.len() == j,
            forall|k: int| 0 <= k < j ==> row@[k] == like_from(pattern@, text@, m as int, k),
        decreases n - j,
    {
        row.push(false);
        j += 1;
    }
    row.push(true);
    let mut i: usize = m;
    while i > 0
        invariant
            n == text@.len(),
            m == pattern@.len(),
            i <= m,
            row@.len() == n + 1,
            forall|k: int| 0 <= k <= n ==> row@[k] == like_from(pattern@, text@, i as int, k),
        decreases i,
    {
        i -= 1;
        let c: char = pattern[i];
        if c == '%' {
            // row[n] stays: at the end of the text only the rest of the
            // pattern decides.
            let mut j: usize = n;
            while j > 0
                invariant
                    n == text@.len(),
                    m == pattern@.len(),
                    i < m,
                    c == pattern@[i as int],
                    c == '%',
                    j <= n,
                    row@.len() == n + 1,
                    forall|k: int|
                        j <= k <= n ==> row@[k] == like_from(pattern@, text@, i as int, k),
                    forall|k: int|
                        0 <= k < j ==> row@[k] == like_from(pattern@, text@, i + 1, k),
                decreases j,
            {
                j -= 1;
                let here: bool = row[j] || row[j + 1];
                row.set(j, here);
            }
        } else {
            let mut j: usize = 0;
            while j < n
                invariant
                    n == text@.len(),
                    m == pattern@.len(),
                    i < m,
                    c == pattern@[i as int],
                    c != '%',
                    j <= n,
                    row@.len() == n + 1,
                    forall|k: int|
                        0 <= k < j ==> row@[k] == like_from(pattern@, text@, i as int, k),
                    forall|k: int|
                        j <= k <= n ==> row@[k] == like_from(pattern@, text@, i + 1, k),
                decreases n - j,
            {
                let here: bool = (c == '_' || fold(c) == fold(text[j])) && row[j + 1];
                row.set(j, here);
                j += 1;
            }
            row.set(n, false);
        }
    }
    row[0]
}

/// Whether `term` occurs in `text`, as a search for `term` sees it.
pub fn contains_text(text: &String, term: &String) -> (found: bool)
    ensures
        found == text_contains(text@, term@),
{
    let inner = chars_of(term);
    let mut pattern: Vec<char> = Vec::new();
    pattern.push('%');
    let mut i: usize = 0;
    while i < inner.len()
        invariant
            i <= inner@.len(),
            pattern@ == seq!['%'] + inner@.take(i as int),
        decreases inner@.len() - i,
    {
        pattern.push(inner[i]);
        assert(seq!['%'] + inner@.take(i + 1) =~= (seq!['%'] + inner@.take(i as int)).push(
            inner@[i as int],
        ));
        i += 1;
    }
    pattern.push('%');
    assert(inner@.take(i as int) =~= inner@);
    assert(pattern@ =~= contains_pattern(term@));
    let subject = chars_of(text);
    like_match(&pattern, &subject)
}

/// Whether `a` comes before `b` from position `i` on, where the two agree
/// before it: at the first position where they differ `a` has the smaller
/// character, or `a` ends there and `b` goes on.
pub open spec fn before_from(a: Seq<char>, b: Seq<char>, i: int) -> bool
    decreases b.len() - i,
{
    if i < 0 || i >= b.len() {
        false
    } else if i >= a.len() {
        true
    } else if a[i] != b[i] {
        a[i] < b[i]
    } else {
        before_from(a, b, i + 1)
    }
}

/// Whether `a` comes strictly before `b` in the order of texts: character
/// by character, by code point.
pub open spec fn text_before(a: Seq<char>, b: Seq<char>) -> bool {
    before_from(a, b, 0)
}

/// Whether `a` comes strictly before `b` in the order of texts.
pub fn is_text_before(a: &Vec<char>, b: &Vec<char>) -> (before: bool)
    ensures
        before == text_before(a@, b@),
{
    let mut i: usize = 0;
    while i < a.len() && i < b.len()
        invariant
            i <= a@.len(),
            i <= b@.len(),
            text_before(a@, b@) == before_from(a@, b@, i as int),
        decreases a@.len() - i,
    {
        let x: char = a[i];
        let y: char = b[i];
        if x != y {
            return x < y;
        }
        i += 1;
    }
    i < b.len()
}

/// From a position on, of two texts at most one comes before the other.
pub proof fn lemma_before_from_asymmetric(a: Seq<char>, b: Seq<char>, i: int)
    requires
        0 <= i,
    ensures
        before_from(a, b, i) ==> !before_from(b, a, i),
    decreases a.len() - i,
{
    if i < a.len() && i < b.len() && a[i] == b[i] {
        lemma_before_from_asymmetric(a, b, i + 1);
    }
}

/// From a position on, a text that comes before a second, which comes
/// before a third, comes before the third.
pub proof fn lemma_before_from_transitive(a: Seq<char>, b: Seq<char>, c: Seq<char>, i: int)
    requires
        0 <= i,
        before_from(a, b, i),
        before_from(b, c, i),
    ensures
        before_from(a, c, i),
    decreases b.len() - i,
{
    if i < a.len() && a[i] == b[i] && b[i] == c[i] {
        lemma_before_from_transitive(a, b, c, i + 1);
    }
}

/// Of two texts that agree up to a position and differ, one comes before
/// the other from that position on.
pub proof fn lemma_before_from_total(a: Seq<char>, b: Seq<char>, i: int)
    requires
        0 <= i <= a.len(),
        i <= b.len(),
        a.take(i) == b.take(i),
        a != b,
    ensures
        before_from(a, b, i) || before_from(b, a, i),
    decreases a.len() - i,
{
    if i == a.len() && i == b.len() {
        assert(a.take(i) =~= a);
        assert(b.take(i) =~= b);
    } else if i < a.len() && i < b.len() && a[i] == b[i] {
        assert(a.take(i + 1) =~= a.take(i).push(a[i]));
        assert(b.take(i + 1) =~= b.take(i).push(b[i]));
        lemma_before_from_total(a, b, i + 1);
    }
}

/// The order of texts is a strict total order: of two texts at most one
/// comes before the other, and exactly one does where they differ; and a
/// text that comes before a second comes before all that the second comes
/// before.
pub proof fn lemma_text_order(a: Seq<char>, b: Seq<char>, c: Seq<char>)
    ensures
        text_before(a, b) ==> !text_before(b, a),
        a != b ==> text_before(a, b) || text_before(b, a),
        text_before(a, b) && text_before(b, c) ==> text_before(a, c),
{
    lemma_before_from_asymmetric(a, b, 0);
    if a != b {
        assert(a.take(0) =~= b.take(0));
        lemma_before_from_total(a, b, 0);
    }
    if text_before(a, b) && text_before(b, c) {
        lemma_before_from_transitive(a, b, c, 0);
    }
}

/// Whether `term` holds no character that a pattern reads as a wildcard.
pub open spec fn plain(term: Seq<char>) -> bool {
    forall|i: int| 0 <= i < term.len() ==> term[i] != '%' && term[i] != '_'
}

/// Whether `term`, from its position `a` on, stands in `text` at position
/// `j`, the case of ASCII letters apart.
pub open spec fn stands_at(text: Seq<char>, term: Seq<char>, a: int, j: int) -> bool {
    &&& 0 <= j
    &&& j + (term.len() - a) <= text.len()
    &&& forall|i: int| a <= i < term.len() ==> folded(text[j + i - a]) == folded(#[trigger] term[i])
}

/// The `%` at the end of a search pattern matches whatever is left of the
/// text.
proof fn lemma_pattern_end(text: Seq<char>, term: Seq<char>, j: int)
    requires
        0 <= j <= text.len(),
    ensures
        like_from(contains_pattern(term), text, term.len() as int + 1, j),
    decreases text.len() - j,
{
    let pattern = contains_pattern(term);
    assert(pattern.len() == term.len() + 2);
    assert(pattern[term.len() as int + 1] == '%');
    if j < text.len() {
        lemma_pattern_end(text, term, j + 1);
    } else {
        assert(like_from(pattern, text, term.len() as int + 2, j));
    }
}

/// Behind the `%` at its start, a search pattern for a plain term matches
/// the text from a position on exactly when the term stands there.
proof fn lemma_pattern_middle(text: Seq<char>, term: Seq<char>, a: int, j: int)
    requires
        plain(term),
        0 <= a <= term.len(),
        0 <= j <= text.len(),
    ensures
        like_from(contains_pattern(term), text, 1 + a, j) <==> stands_at(text, term, a, j),
    decreases term.len() - a,
{
    let pattern = contains_pattern(term);
    assert(pattern.len() == term.len() + 2);
    if a == term.len() {
        lemma_pattern_end(text, term, j);
    } else {
        assert(pattern[1 + a] == term[a]);
        if j < text.len() {
            lemma_pattern_middle(text, term, a + 1, j + 1);
            if stands_at(text, term, a, j) {
                assert(folded(text[j + a - a]) == folded(term[a]));
                assert forall|i: int| a + 1 <= i < term.len() implies folded(
                    text[j + 1 + i - (a + 1)],
                ) == folded(#[trigger] term[i]) by {
                    assert(folded(text[j + i - a]) == folded(term[i]));
                }
            }
            if folded(term[a]) == folded(text[j]) && stands_at(text, term, a + 1, j + 1) {
                assert forall|i: int| a <= i < term.len() implies folded(text[j + i - a])
                    == folded(#[trigger] term[i]) by {
                    if i > a {
                        assert(folded(text[j + 1 + i - (a + 1)]) == folded(term[i]));
                    }
                }
            }
        }
    }
}

/// A search pattern for a plain term matches the text from a position on
/// exactly when the term stands somewhere at or behind that position.
proof fn lemma_pattern_start(text: Seq<char>, term: Seq<char>, j: int)
    requires
        plain(term),
        0 <= j <= text.len(),
    ensures
        like_from(contains_pattern(term), text, 0, j) <==> exists|k: int|
            j <= k && #[trigger] stands_at(text, term, 0, k),
    decreases text.len() - j,
{
    let pattern = contains_pattern(term);
    assert(pattern[0] == '%');
    lemma_pattern_middle(text, term, 0, j);
    if j < text.len() {
        lemma_pattern_start(text, term, j + 1);
        if like_from(pattern, text, 0, j) {
            if like_from(pattern, text, 1, j) {
                assert(j <= j && stands_at(text, term, 0, j));
            } else {
                let k = choose|k: int| j + 1 <= k && #[trigger] stands_at(text, term, 0, k);
                assert(j <= k && stands_at(text, term, 0, k));
            }
        }
        if exists|k: int| j <= k && #[trigger] stands_at(text, term, 0, k) {
            let k = choose|k: int| j <= k && #[trigger] stands_at(text, term, 0, k);
            if k > j {
                assert(j + 1 <= k && stands_at(text, term, 0, k));
            }
        }
    } else {
        if like_from(pattern, text, 0, j) {
            assert(j <= j && stands_at(text, term, 0, j));
        }
        if exists|k: int| j <= k && #[trigger] stands_at(text, term, 0, k) {
            let k = choose|k: int| j <= k && #[trigger] stands_at(text, term, 0, k);
            assert(k == j);
        }
    }
}

/// A search for a term without wildcards finds exactly the texts in which
/// the term occurs, the case of ASCII letters apart.
pub proof fn law_search_is_containment(text: Seq<char>, term: Seq<char>)
    requires
        plain(term),
    ensures
        text_contains(text, term) <==> exists|k: int| #[trigger] stands_at(text, term, 0, k),
{
    lemma_pattern_start(text, term, 0);
    if exists|k: int| #[trigger] stands_at(text, term, 0, k) {
        let k = choose|k: int| #[trigger] stands_at(text, term, 0, k);
        assert(0 <= k && stands_at(text, term, 0, k));
    }
    if text_contains(text, term) {
        let k = choose|k: int| 0 <= k && #[trigger] stands_at(text, term, 0, k);
        assert(stands_at(text, term, 0, k));
    }
}

} // verus!
