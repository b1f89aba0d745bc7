//! Text helpers: everything here reads a string as its sequence of characters.

use vstd::prelude::*;

verus! {

/// `String::push`: the given character is appended to the end of the string.
pub assume_specification[ String::push ](s: &mut String, c: char)
    ensures
        final(s)@ == old(s)@.push(c),
;

/// What `str::to_lowercase` gives for a text.
pub uninterp spec fn lowercase_of(s: Seq<char>) -> Seq<char>;

/// `str::to_lowercase`: the lowercase form of the text, which depends on the text alone.
#[verifier::external_body]
pub(crate) fn lowercase(s: &str) -> (r: String)
    ensures
        r@ == lowercase_of(s@),
{
    s.to_lowercase()
}

/// `needle` stands in `hay` at position `at`.
pub open spec fn occurs_at(hay: Seq<char>, needle: Seq<char>, at: int) -> bool {
    &&& 0 <= at
    &&& at + needle.len() <= hay.len()
    &&& hay.subrange(at, at + needle.len()) == needle
}

/// `needle` stands somewhere in `hay`.
pub open spec fn occurs_in(hay: Seq<char>, needle: Seq<char>) -> bool {
    exists|at: int| occurs_at(hay, needle, at)
}

/// A text that was put together occurs in the whole.
pub proof fn lemma_occurs_between(
    whole: Seq<char>,
    front: Seq<char>,
    middle: Seq<char>,
    back: Seq<char>,
)
    requires
        whole =~= front + middle + back,
    ensures
        occurs_in(whole, middle),
{
    let at = front.len() as int;
    assert(whole.subrange(at, at + middle.len()) =~= middle);
    assert(occurs_at(whole, middle, at));
}

/// The views of a sequence of strings.
pub open spec fn views(v: Seq<String>) -> Seq<Seq<char>> {
    v.map_values(|s: String| s@)
}

/// The view of an optional string.
pub open spec fn opt_view(s: Option<String>) -> Option<Seq<char>> {
    match s {
        Some(t) => Some(t@),
        None => None,
    }
}

/// The characters that count as white space.
pub open spec fn is_space(c: char) -> bool {
    ||| '\u{9}' <= c <= '\u{d}'
    ||| c == ' '
    ||| c == '\u{85}'
    ||| c == '\u{a0}'
    ||| c == '\u{1680}'
    ||| '\u{2000}' <= c <= '\u{200a}'
    ||| c == '\u{2028}'
    ||| c == '\u{2029}'
    ||| c == '\u{202f}'
    ||| c == '\u{205f}'
    ||| c == '\u{3000}'
}

/// The decimal digit `d`.
pub open spec fn digit(d: nat) -> char {
    (48 + d) as char
}

/// The decimal numeral of `n`, without leading zeros.
pub open spec fn decimal(n: nat) -> Seq<char>
    decreases n,
{
    if n < 10 {
        seq![digit(n)]
    } else {
        decimal(n / 10).push(digit(n % 10))
    }
}

/// `a` comes before `b` in the order of strings: at the first place where they differ, or because
/// `a` is a proper beginning of `b`.
pub open spec fn text_less(a: Seq<char>, b: Seq<char>) -> bool {
    exists|k: int| #[trigger] differs_first_at(a, b, k)
}

/// `a` and `b` agree before place `k`, and at `k` `a` has ended or holds the smaller character.
pub open spec fn differs_first_at(a: Seq<char>, b: Seq<char>, k: int) -> bool {
    &&& 0 <= k <= a.len()
    &&& k < b.len()
    &&& a.subrange(0, k) == b.subrange(0, k)
    &&& k == a.len() || (a[k] as int) < (b[k] as int)
}

/// Each text comes before all that follow it, so none occurs twice.
pub open spec fn strictly_sorted(s: Seq<Seq<char>>) -> bool {
    forall|i: int, j: int| 0 <= i < j < s.len() ==> text_less(#[trigger] s[i], #[trigger] s[j])
}

/// The characters of a text.
pub fn chars_of(s: &str) -> (r: Vec<char>)
    ensures
        r@ == s@,
{
    let mut out: Vec<char> = Vec::new();
    for c in it: s.chars()
        invariant
            out@ == it.seq().take(it.index()),
            it.seq() == s@,
    {
        out.push(c);
        assert(it.seq().take(it.index() + 1) == it.seq().take(it.index()).push(c));
    }
    assert(s@.take(s@.len() as int) == s@);
    out
}

/// The text made of the characters from `from` up to `to`.
pub fn text_of(v: &Vec<char>, from: usize, to: usize) -> (r: String)
    requires
        from <= to <= v@.len(),
    ensures
        r@ == v@.subrange(from as int, to as int),
{
    let mut out = String::new();
    let mut i: usize = from;
    while i < to
        invariant
            from <= i <= to <= v@.len(),
            out@ == v@.subrange(from as int, i as int),
        decreases to - i,
    {
        out.push(v[i]);
        i += 1;
        assert(v@.subrange(from as int, i as int) == v@.subrange(from as int, i - 1).push(v@[i - 1]));
    }
    out
}

/// Do the two texts hold the same characters?
pub fn same_text(a: &str, b: &str) -> (r: bool)
    ensures
        r == (a@ == b@),
{
    a.to_owned() == b.to_owned()
}

/// Do the lists hold the same texts in the same order?
pub fn same_texts(a: &Vec<String>, b: &Vec<String>) -> (r: bool)
    ensures
        r == (views(a@) == views(b@)),
{
    if a.len() != b.len() {
        assert(views(a@).len() != views(b@).len());
        return false;
    }
    let mut i: usize = 0;
    while i < a.len()
        invariant
            i <= a@.len() == b@.len(),
            forall|k: int| 0 <= k < i ==> a@[k]@ == b@[k]@,
        decreases a@.len() - i,
    {
        if !same_text(a[i].as_str(), b[i].as_str()) {
            assert(views(a@)[i as int] != views(b@)[i as int]);
            return false;
        }
        i += 1;
    }
    assert(views(a@) =~= views(b@));
    true
}

/// Does `needle` stand in `hay` at `at`?
pub fn chars_at(hay: &Vec<char>, needle: &Vec<char>, at: usize) -> (r: bool)
    requires
        at <= hay@.len(),
    ensures
        r == occurs_at(hay@, needle@, at as int),
{
    if needle.len() > hay.len() - at {
        return false;
    }
    let mut i: usize = 0;
    while i < needle.len()
        invariant
            i <= needle@.len(),
            at + needle@.len() <= hay@.len() <= usize::MAX,
            forall|k: int| 0 <= k < i ==> hay@[at + k] == #[trigger] needle@[k],
        decreases needle@.len() - i,
    {
        if hay[at + i] != needle[i] {
            assert(hay@.subrange(at as int, at + needle@.len())[i as int] != needle@[i as int]);
            return false;
        }
        i += 1;
    }
    assert(hay@.subrange(at as int, at + needle@.len()) =~= needle@);
    true
}

/// Does `needle` stand somewhere in `hay`?
pub fn chars_contain(hay: &Vec<char>, needle: &Vec<char>) -> (r: bool)
    ensures
        r == occurs_in(hay@, needle@),
{
    let mut at: usize = 0;
    loop
        invariant
            at <= hay@.len(),
            forall|k: int| 0 <= k < at ==> !occurs_at(hay@, needle@, k),
        decreases hay@.len() + 1 - at,
    {
        if chars_at(hay, needle, at) {
            return true;
        }
        if at >= hay.len() {
            assert forall|k: int| !occurs_at(hay@, needle@, k) by {
                if k > hay@.len() {
                }
            }
            return false;
        }
        at += 1;
    }
}

/// Does `needle` stand somewhere in `hay`?
pub fn contains_text(hay: &str, needle: &str) -> (r: bool)
    ensures
        r == occurs_in(hay@, needle@),
{
    let h = chars_of(hay);
    let n = chars_of(needle);
    chars_contain(&h, &n)
}

/// `s` begins with `word`.
pub open spec fn begins_with(s: Seq<char>, word: Seq<char>) -> bool {
    occurs_at(s, word, 0)
}

/// Does `s` begin with `word`?
pub fn begins(s: &str, word: &str) -> (r: bool)
    ensures
        r == begins_with(s@, word@),
{
    let v = chars_of(s);
    let w = chars_of(word);
    chars_at(&v, &w, 0)
}

/// Is the text among `list`?
pub fn text_in_list(list: &Vec<String>, s: &str) -> (r: bool)
    ensures
        r == views(list@).contains(s@),
{
    let mut i: usize = 0;
    while i < list.len()
        invariant
            i <= list@.len(),
            forall|k: int| 0 <= k < i ==> (#[trigger] views(list@)[k]) != s@,
        decreases list@.len() - i,
    {
        if same_text(list[i].as_str(), s) {
            assert(views(list@)[i as int] == s@);
            return true;
        }
        assert(views(list@)[i as int] == list@[i as int]@);
        i += 1;
    }
    assert(views(list@).len() == list@.len());
    false
}

/// Is the character white space?
pub fn space(c: char) -> (r: bool)
    ensures
        r == is_space(c),
{
    ('\u{9}' <= c && c <= '\u{d}') || c == ' ' || c == '\u{85}' || c == '\u{a0}' || c == '\u{1680}' || (
    '\u{2000}' <= c && c <= '\u{200a}') || c == '\u{2028}' || c == '\u{2029}' || c == '\u{202f}' || c
        == '\u{205f}' || c == '\u{3000}'
}

/// Where the text inside the white space around `s` begins and ends.
pub open spec fn trimmed_bounds(s: Seq<char>, from: int, to: int) -> bool {
    &&& 0 <= from <= to <= s.len()
    &&& forall|i: int| 0 <= i < from ==> is_space(#[trigger] s[i])
    &&& forall|i: int| to <= i < s.len() ==> is_space(#[trigger] s[i])
    &&& from < to ==> !is_space(s[from]) && !is_space(s[to - 1])
    &&& from == to ==> from == s.len()
}

/// `s` without the white space at either end.
pub open spec fn trimmed(s: Seq<char>) -> Seq<char> {
    let b = choose|b: (int, int)| trimmed_bounds(s, b.0, b.1);
    s.subrange(b.0, b.1)
}

/// There is one way to trim a text.
pub proof fn lemma_trimmed(s: Seq<char>, from: int, to: int)
    requires
        trimmed_bounds(s, from, to),
    ensures
        trimmed(s) == s.subrange(from, to),
{
    let b = choose|b: (int, int)| trimmed_bounds(s, b.0, b.1);
    assert(trimmed_bounds(s, (from, to).0, (from, to).1));
    assert(trimmed_bounds(s, b.0, b.1));
    if b.0 < from {
        if b.0 < b.1 {
            assert(is_space(s[b.0]));
        }
    }
    if from < b.0 {
        if from < to {
            assert(is_space(s[from]));
        }
    }
    if b.0 < b.1 && b.1 < to {
        assert(is_space(s[to - 1]));
    }
    if b.0 < b.1 && to < b.1 {
        assert(is_space(s[b.1 - 1]));
    }
}

/// `s` without the white space at either end.
pub fn trim(s: &str) -> (r: String)
    ensures
        r@ == trimmed(s@),
{
    let v = chars_of(s);
    let mut from: usize = 0;
    while from < v.len() && space(v[from])
        invariant
            from <= v@.len(),
            forall|i: int| 0 <= i < from ==> is_space(#[trigger] v@[i]),
        decreases v@.len() - from,
    {
        from += 1;
    }
    let mut to: usize = v.len();
    while from < to && space(v[to - 1])
        invariant
            from <= to <= v@.len(),
            from < v@.len() ==> !is_space(v@[from as int]),
            forall|i: int| to <= i < v@.len() ==> is_space(#[trigger] v@[i]),
        decreases to,
    {
        to -= 1;
    }
    if from == to && from < v.len() {
        assert(is_space(v@[from as int]));
    }
    proof {
        lemma_trimmed(v@, from as int, to as int);
    }
    text_of(&v, from, to)
}

/// The decimal numeral of a number.
pub fn decimal_text(n: u64) -> (r: String)
    ensures
        r@ == decimal(n as nat),
    decreases n,
{
    let mut out = if n < 10 {
        String::new()
    } else {
        decimal_text(n / 10)
    };
    let d: u8 = (n % 10) as u8;
    out.push((48u8 + d) as char);
    assert(out@ =~= decimal(n as nat));
    out
}

/// Does `a` come before `b`?
pub fn text_before(a: &str, b: &str) -> (r: bool)
    ensures
        r == text_less(a@, b@),
{
    let x = chars_of(a);
    let y = chars_of(b);
    let mut k: usize = 0;
    loop
        invariant
            k <= x@.len(),
            k <= y@.len(),
            x@ == a@,
            y@ == b@,
            x@.subrange(0, k as int) == y@.subrange(0, k as int),
        decreases x@.len() - k,
    {
        if k >= y.len() {
            assert forall|j: int| !differs_first_at(a@, b@, j) by {
                if 0 <= j < k {
                    assert(x@.subrange(0, k as int)[j] == y@.subrange(0, k as int)[j]);
                }
            }
            return false;
        }
        if k >= x.len() {
            assert(differs_first_at(a@, b@, k as int));
            return true;
        }
        let c: char = x[k];
        let d: char = y[k];
        if c < d {
            assert(differs_first_at(a@, b@, k as int));
            return true;
        }
        if c > d {
            assert forall|j: int| !differs_first_at(a@, b@, j) by {
                if 0 <= j < k {
                    assert(x@.subrange(0, k as int)[j] == y@.subrange(0, k as int)[j]);
                }
                if j > k && j <= x@.len() && j < y@.len() && x@.subrange(0, j) == y@.subrange(0, j) {
                    assert(x@.subrange(0, j)[k as int] == y@.subrange(0, j)[k as int]);
                }
            }
            return false;
        }
        k += 1;
        assert(x@.subrange(0, k as int) =~= y@.subrange(0, k as int)) by {
            assert forall|i: int| 0 <= i < k implies x@[i] == y@[i] by {
                if i < k - 1 {
                    assert(x@.subrange(0, k - 1)[i] == y@.subrange(0, k - 1)[i]);
                }
            }
        }
    }
}

/// No text comes before itself.
pub proof fn lemma_text_less_irreflexive(a: Seq<char>)
    ensures
        !text_less(a, a),
{
}

/// The order of texts is transitive.
pub proof fn lemma_text_less_transitive(a: Seq<char>, b: Seq<char>, c: Seq<char>)
    requires
        text_less(a, b),
        text_less(b, c),
    ensures
        text_less(a, c),
{
    let i = choose|k: int| differs_first_at(a, b, k);
    let j = choose|k: int| differs_first_at(b, c, k);
    let k = if i < j { i } else { j };
    assert forall|m: int| 0 <= m < k implies a[m] == c[m] by {
        assert(a.subrange(0, i)[m] == b.subrange(0, i)[m]);
        assert(b.subrange(0, j)[m] == c.subrange(0, j)[m]);
    }
    assert(a.subrange(0, k) =~= c.subrange(0, k));
    if i < j {
        assert(b.subrange(0, j)[i] == c.subrange(0, j)[i]);
    }
    if j < i {
        assert(a.subrange(0, i)[j] == b.subrange(0, i)[j]);
    }
    assert(differs_first_at(a, c, k));
}

/// Of two different texts one comes before the other.
pub proof fn lemma_text_less_total(a: Seq<char>, b: Seq<char>)
    requires
        a != b,
    ensures
        text_less(a, b) || text_less(b, a),
{
    let n = if a.len() < b.len() { a.len() } else { b.len() };
    if forall|i: int| 0 <= i < n ==> a[i] == b[i] {
        assert(a.subrange(0, n as int) =~= b.subrange(0, n as int));
        if a.len() == b.len() {
            assert(a =~= b);
        } else if a.len() < b.len() {
            assert(differs_first_at(a, b, n as int));
        } else {
            assert(differs_first_at(b, a, n as int));
        }
    } else {
        let d = choose|i: int| 0 <= i < n && a[i] != b[i];
        lemma_first_difference(a, b, d);
    }
}

/// Two texts that differ at `d` have a first place where they differ.
proof fn lemma_first_difference(a: Seq<char>, b: Seq<char>, d: int)
    requires
        0 <= d < a.len(),
        d < b.len(),
        a[d] != b[d],
    ensures
        text_less(a, b) || text_less(b, a),
    decreases d,
{
    if exists|i: int| 0 <= i < d && a[i] != b[i] {
        let e = choose|i: int| 0 <= i < d && a[i] != b[i];
        lemma_first_difference(a, b, e);
    } else {
        assert(a.subrange(0, d) =~= b.subrange(0, d));
        if (a[d] as int) < (b[d] as int) {
            assert(differs_first_at(a, b, d));
        } else {
            assert(differs_first_at(b, a, d));
        }
    }
}

/// Puts `s` at its place in a sorted list, or leaves the list as it is where `s` is in it already.
pub fn insert_sorted(list: &mut Vec<String>, s: &str)
    requires
        strictly_sorted(views(old(list)@)),
    ensures
        strictly_sorted(views(final(list)@)),
        forall|t: Seq<char>|
            #[trigger] views(final(list)@).contains(t) <==> (views(old(list)@).contains(t) || t == s@),
{
    let mut at: usize = 0;
    while at < list.len() && text_before(list[at].as_str(), s)
        invariant
            at <= list@.len(),
            list@ == old(list)@,
            forall|k: int| 0 <= k < at ==> text_less(#[trigger] views(list@)[k], s@),
        decreases list@.len() - at,
    {
        assert(views(list@)[at as int] == list@[at as int]@);
        at += 1;
    }
    let ghost before = views(list@);
    if at < list.len() && same_text(list[at].as_str(), s) {
        assert(before[at as int] == s@);
        return;
    }
    let item = s.to_owned();
    list.insert(at, item);
    let ghost after = views(list@);
    proof {
        assert(after =~= before.insert(at as int, s@));
        if at < before.len() {
            assert(before[at as int] == old(list)@[at as int]@);
            lemma_text_less_total(before[at as int], s@);
        }
        assert forall|i: int, j: int| 0 <= i < j < after.len() implies text_less(
            #[trigger] after[i],
            #[trigger] after[j],
        ) by {
            if j == at {
                assert(after[i] == before[i]);
            } else if i == at {
                assert(after[j] == before[j - 1]);
                if j - 1 > at {
                    lemma_text_less_transitive(s@, before[at as int], before[j - 1]);
                }
            } else {
                let p = if i < at { i } else { i - 1 };
                let q = if j < at { j } else { j - 1 };
                assert(after[i] == before[p] && after[j] == before[q]);
            }
        }
        assert forall|t: Seq<char>| #[trigger] after.contains(t) <==> (before.contains(t) || t
            == s@) by {
            if before.contains(t) {
                let i = choose|i: int| 0 <= i < before.len() && before[i] == t;
                let p = if i < at { i } else { i + 1 };
                assert(after[p] == t);
            }
            if t == s@ {
                assert(after[at as int] == t);
            }
            if after.contains(t) && t != s@ {
                let i = choose|i: int| 0 <= i < after.len() && after[i] == t;
                let p = if i < at { i } else { i - 1 };
                assert(before[p] == t);
            }
        }
    }
}

/// A sorted list is determined by what stands in it.
pub proof fn lemma_sorted_lists_equal(a: Seq<Seq<char>>, b: Seq<Seq<char>>)
    requires
        strictly_sorted(a),
        strictly_sorted(b),
        forall|t: Seq<char>| a.contains(t) <==> b.contains(t),
    ensures
        a == b,
    decreases a.len(),
{
    if a.len() == 0 {
        if b.len() > 0 {
            assert(b.contains(b[0]));
            assert(a.contains(b[0]));
        }
        assert(a =~= b);
    } else {
        assert(a.contains(a[0]));
        assert(b.contains(a[0]));
        assert(b.contains(b[0]));
        assert(a.contains(b[0]));
        let i = choose|i: int| 0 <= i < b.len() && b[i] == a[0];
        let j = choose|j: int| 0 <= j < a.len() && a[j] == b[0];
        if i > 0 && j > 0 {
            lemma_text_less_transitive(a[0], b[0], a[0]);
            lemma_text_less_irreflexive(a[0]);
        }
        assert(a[0] == b[0]);
        let x = a.drop_first();
        let y = b.drop_first();
        assert forall|t: Seq<char>| x.contains(t) <==> y.contains(t) by {
            if x.contains(t) {
                let k = choose|k: int| 0 <= k < x.len() && x[k] == t;
                assert(a[k + 1] == t);
                assert(a.contains(t));
                assert(b.contains(t));
                let m = choose|m: int| 0 <= m < b.len() && b[m] == t;
                if m == 0 {
                    lemma_text_less_irreflexive(t);
                }
                assert(y[m - 1] == t);
            }
            if y.contains(t) {
                let k = choose|k: int| 0 <= k < y.len() && y[k] == t;
                assert(b[k + 1] == t);
                assert(b.contains(t));
                assert(a.contains(t));
                let m = choose|m: int| 0 <= m < a.len() && a[m] == t;
                if m == 0 {
                    lemma_text_less_irreflexive(t);
                }
                assert(x[m - 1] == t);
            }
        }
        lemma_sorted_lists_equal(x, y);
        assert(a =~= seq![a[0]] + x);
        assert(b =~= seq![b[0]] + y);
    }
}

/// A text is found in another exactly where the other holds its characters one after the other.
pub proof fn law_a_text_is_found_where_it_stands(hay: &str, needle: &str, r: bool, at: int)
    requires
        call_ensures(contains_text, (hay, needle), r),
    ensures
        0 <= at <= hay@.len() - needle@.len() && (forall|k: int|
            0 <= k < needle@.len() ==> hay@[at + k] == #[trigger] needle@[k]) ==> r,
        r ==> exists|i: int|
            0 <= i <= hay@.len() - needle@.len() && #[trigger] hay@.subrange(i, i + needle@.len())
                == needle@,
{
    if 0 <= at <= hay@.len() - needle@.len() && (forall|k: int|
        0 <= k < needle@.len() ==> hay@[at + k] == #[trigger] needle@[k]) {
        assert(hay@.subrange(at, at + needle@.len()) =~= needle@);
        assert(occurs_at(hay@, needle@, at));
    }
    if r {
        let i = choose|i: int| occurs_at(hay@, needle@, i);
        assert(hay@.subrange(i, i + needle@.len()) == needle@);
    }
}

/// A text begins with a word exactly where its first characters are the word's.
pub proof fn law_a_text_begins_with_its_first_characters(s: &str, word: &str, r: bool)
    requires
        call_ensures(begins, (s, word), r),
    ensures
        r <==> word@.len() <= s@.len() && s@.take(word@.len() as int) == word@,
{
    if word@.len() <= s@.len() {
        assert(s@.take(word@.len() as int) =~= s@.subrange(0, word@.len() as int));
    }
}

/// Texts are compared by all of their characters, and so are lists of them.
pub proof fn law_the_same_texts_hold_the_same_characters(a: Vec<String>, b: Vec<String>, r: bool, i: int)
    requires
        call_ensures(same_texts, (&a, &b), r),
    ensures
        r ==> a@.len() == b@.len(),
        r && 0 <= i < a@.len() ==> a@[i]@ == b@[i]@,
        a@ == b@ ==> r,
{
    if r && 0 <= i < a@.len() {
        assert(views(a@)[i] == a@[i]@);
        assert(views(b@)[i] == b@[i]@);
    }
    assert(views(a@).len() == a@.len() && views(b@).len() == b@.len());
}

/// A text is among a list exactly where an entry of it holds the same characters.
pub proof fn law_a_listed_text_is_an_entry(list: Vec<String>, s: &str, r: bool)
    requires
        call_ensures(text_in_list, (&list, s), r),
    ensures
        r <==> exists|i: int| 0 <= i < list@.len() && (#[trigger] list@[i])@ == s@,
{
    if r {
        let i = choose|i: int| 0 <= i < views(list@).len() && views(list@)[i] == s@;
        assert(list@[i]@ == s@);
    }
    if exists|i: int| 0 <= i < list@.len() && (#[trigger] list@[i])@ == s@ {
        let i = choose|i: int| 0 <= i < list@.len() && (#[trigger] list@[i])@ == s@;
        assert(views(list@)[i] == s@);
    }
}

/// The views of texts are those of each text in its place, and an absent text has none.
pub proof fn law_views_are_taken_one_by_one(v: Seq<String>, i: int, s: String)
    ensures
        views(v).len() == v.len(),
        0 <= i < v.len() ==> views(v)[i] == v[i]@,
        opt_view(Some(s)) == Some(s@),
        opt_view(None) is None,
{
}

proof fn lemma_first_text(s: Seq<char>, i: int) -> (r: int)
    requires
        0 <= i <= s.len(),
        forall|k: int| 0 <= k < i ==> is_space(#[trigger] s[k]),
    ensures
        i <= r <= s.len(),
        forall|k: int| 0 <= k < r ==> is_space(#[trigger] s[k]),
        r < s.len() ==> !is_space(s[r]),
    decreases s.len() - i,
{
    if i < s.len() && is_space(s[i]) {
        lemma_first_text(s, i + 1)
    } else {
        i
    }
}

proof fn lemma_last_text(s: Seq<char>, from: int, j: int) -> (r: int)
    requires
        0 <= from < j <= s.len(),
        !is_space(s[from]),
        forall|k: int| j <= k < s.len() ==> is_space(#[trigger] s[k]),
    ensures
        from < r <= s.len(),
        forall|k: int| r <= k < s.len() ==> is_space(#[trigger] s[k]),
        !is_space(s[r - 1]),
    decreases j,
{
    if is_space(s[j - 1]) {
        lemma_last_text(s, from, j - 1)
    } else {
        j
    }
}

proof fn lemma_trimmed_exists(s: Seq<char>)
    ensures
        exists|b: (int, int)| trimmed_bounds(s, b.0, b.1),
{
    let from = lemma_first_text(s, 0);
    let to = if from < s.len() {
        lemma_last_text(s, from, s.len() as int)
    } else {
        from
    };
    let b = (from, to);
    assert(trimmed_bounds(s, b.0, b.1));
}

/// What is left of a trimmed text stands in it, has no white space at either end, and nothing but
/// white space was taken off.
pub proof fn law_trimming_takes_only_white_space_off(s: &str, r: String, i: int)
    requires
        call_ensures(trim, (s,), r),
    ensures
        r@.len() > 0 ==> !is_space(r@[0]) && !is_space(r@.last()),
        exists|from: int, to: int|
            {
                &&& 0 <= from <= to <= s@.len()
                &&& r@ == #[trigger] s@.subrange(from, to)
                &&& forall|k: int| 0 <= k < from ==> is_space(#[trigger] s@[k])
                &&& forall|k: int| to <= k < s@.len() ==> is_space(#[trigger] s@[k])
            },
{
    lemma_trimmed_exists(s@);
    let b = choose|b: (int, int)| trimmed_bounds(s@, b.0, b.1);
    assert(r@ == s@.subrange(b.0, b.1));
    if r@.len() > 0 {
        assert(r@[0] == s@[b.0] && r@.last() == s@[b.1 - 1]);
    }
}

/// The characters that count as white space are those of the Unicode property of that name.
pub proof fn law_white_space_is_told_from_text(c: char, r: bool)
    requires
        call_ensures(space, (c,), r),
    ensures
        c == ' ' || c == '\t' || c == '\n' || c == '\r' ==> r,
        '!' <= c <= '~' ==> !r,
        r ==> (c as int) < 14 || c as int == 32 || c as int == 133 || c as int == 160 || c as int
            == 5760 || 8191 < c as int && (c as int) < 8203 || c as int == 8232 || c as int == 8233
            || c as int == 8239 || c as int == 8287 || c as int == 12288,
        8 < c as int && (c as int) < 14 ==> r,
        (c as int) < 9 ==> !r,
        c as int == 133 || c as int == 160 || c as int == 5760 ==> r,
        8191 < c as int && (c as int) < 8203 ==> r,
        c as int == 8232 || c as int == 8233 || c as int == 8239 || c as int == 8287 || c as int
            == 12288 ==> r,
        r == is_space(c),
{
}

/// The numeral of a number of several digits is that of its tens with its last digit behind it, and
/// all of its characters are digits.
pub proof fn law_a_numeral_is_made_of_its_digits(n: u64, r: String, i: int)
    requires
        call_ensures(decimal_text, (n,), r),
    ensures
        r@.len() > 0,
        r@.last() as int == 48 + n % 10,
        n < 10 ==> r@.len() == 1,
        n >= 10 ==> r@.drop_last() == decimal((n / 10) as nat),
        0 <= i < r@.len() ==> '0' <= r@[i] <= '9',
        n >= 10 ==> r@[0] != '0',
{
    lemma_decimal_digits(n as nat);
    if n >= 10 {
        assert(r@.drop_last() =~= decimal((n / 10) as nat));
    }
}

proof fn lemma_decimal_digits(n: nat)
    ensures
        decimal(n).len() > 0,
        forall|i: int| 0 <= i < decimal(n).len() ==> '0' <= #[trigger] decimal(n)[i] <= '9',
        n > 0 ==> decimal(n)[0] != '0',
    decreases n,
{
    if n >= 10 {
        lemma_decimal_digits(n / 10);
        let d = decimal(n / 10);
        assert forall|i: int| 0 <= i < decimal(n).len() implies '0' <= #[trigger] decimal(n)[i]
            <= '9' by {
            if i < d.len() {
                assert(decimal(n)[i] == d[i]);
            }
        }
        assert(decimal(n)[0] == d[0]);
    }
}

/// Different numbers have different numerals.
pub proof fn law_a_numeral_names_one_number(a: nat, b: nat)
    requires
        decimal(a) == decimal(b),
    ensures
        a == b,
    decreases a,
{
    lemma_decimal_digits(a);
    lemma_decimal_digits(b);
    if a >= 10 {
        lemma_decimal_digits(a / 10);
        assert(decimal(a).drop_last() =~= decimal(a / 10));
    }
    if b >= 10 {
        lemma_decimal_digits(b / 10);
        assert(decimal(b).drop_last() =~= decimal(b / 10));
    }
    assert(decimal(a).last() == decimal(b).last());
    assert(digit(a % 10) as int == 48 + a % 10 && digit(b % 10) as int == 48 + b % 10);
    assert(decimal(a).last() == digit(a % 10) && decimal(b).last() == digit(b % 10));
    if a >= 10 && b >= 10 {
        law_a_numeral_names_one_number(a / 10, b / 10);
    }
}

/// Texts are ordered by the first character in which they differ, and a beginning of a text comes
/// before it.
pub proof fn law_texts_are_ordered_by_their_first_difference(a: &str, b: &str, r: bool, k: int)
    requires
        call_ensures(text_before, (a, b), r),
        0 <= k <= a@.len(),
        k <= b@.len(),
        a@.take(k) == b@.take(k),
    ensures
        k < a@.len() && k < b@.len() && a@[k] < b@[k] ==> r,
        k < a@.len() && k < b@.len() && b@[k] < a@[k] ==> !r,
        k == a@.len() && k < b@.len() ==> r,
        k == b@.len() ==> !r,
{
    assert(a@.take(k) =~= a@.subrange(0, k));
    assert(b@.take(k) =~= b@.subrange(0, k));
    if k < b@.len() && (k == a@.len() || a@[k] < b@[k]) {
        assert(differs_first_at(a@, b@, k));
    }
    if r {
        let j = choose|j: int| differs_first_at(a@, b@, j);
        if j < k {
            assert(a@.take(k)[j] == a@[j]);
            assert(b@.take(k)[j] == b@[j]);
            assert(a@[j] == b@[j]);
        }
        if k < j {
            assert(a@.subrange(0, j)[k] == a@[k]);
            assert(b@.subrange(0, j)[k] == b@[k]);
            assert(a@[k] == b@[k]);
        }
    }
}

/// Two texts are the same exactly where they are as long as each other and agree in every place; a
/// text is taken apart into its characters and any part of it is put together again.
pub proof fn law_a_text_is_its_characters(
    a: &str,
    b: &str,
    same: bool,
    chars: Vec<char>,
    from: usize,
    to: usize,
    part: String,
    i: int,
)
    requires
        call_ensures(same_text, (a, b), same),
        call_ensures(chars_of, (a,), chars),
        from <= to <= chars@.len(),
        call_ensures(text_of, (&chars, from, to), part),
    ensures
        same ==> a@.len() == b@.len() && (0 <= i < a@.len() ==> a@[i] == b@[i]),
        a@.len() == b@.len() && (forall|k: int| 0 <= k < a@.len() ==> a@[k] == b@[k]) ==> same,
        chars@.len() == a@.len(),
        0 <= i < a@.len() ==> chars@[i] == a@[i],
        part@.len() == to - from,
        0 <= i < to - from ==> part@[i] == a@[from + i],
{
    if a@.len() == b@.len() && (forall|k: int| 0 <= k < a@.len() ==> a@[k] == b@[k]) {
        assert(a@ =~= b@);
    }
}

/// Putting a text into a sorted list keeps the list sorted and everything that was in it, and adds
/// that text alone.
pub proof fn law_a_text_is_put_at_its_place(list: &mut Vec<String>, s: &str, t: Seq<char>)
    requires
        strictly_sorted(views(old(list)@)),
        call_ensures(insert_sorted, (list, s), ()),
    ensures
        views(final(list)@).contains(s@),
        views(old(list)@).contains(t) ==> views(final(list)@).contains(t),
        views(final(list)@).contains(t) && t != s@ ==> views(old(list)@).contains(t),
        strictly_sorted(views(final(list)@)),
{
}

} // verus!
