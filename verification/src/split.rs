//! Splitting text into pieces: on white space, and on a separator character.

use vstd::prelude::*;
use crate::text::{
    first_index, is_space, is_whitespace, lemma_first_index, lemma_trim_start,
    lemma_trim_start_shorter, slice, trim_start,
};

verus! {

/// Length of the longest prefix of `s` that holds no white space.
pub open spec fn token_len(s: Seq<char>) -> int
    decreases s.len(),
{
    if s.len() > 0 && !is_whitespace(s.first()) {
        1 + token_len(s.drop_first())
    } else {
        0
    }
}

/// The maximal runs of characters other than white space in `s`, in order.
pub open spec fn words(s: Seq<char>) -> Seq<Seq<char>>
    decreases s.len(),
{
    let t = trim_start(s);
    if t.len() == 0 {
        Seq::empty()
    } else {
        proof {
            lemma_trim_start_shorter(s);
            lemma_token_len_bounds(t);
        }
        let n = token_len(t);
        seq![t.take(n)] + words(t.skip(n))
    }
}

/// The pieces of `s` between occurrences of `sep`: one more piece than `s`
/// holds separators, empty pieces included.
pub open spec fn split_on(s: Seq<char>, sep: char) -> Seq<Seq<char>>
    decreases s.len(),
{
    let i = first_index(s, sep);
    if 0 <= i < s.len() {
        seq![s.take(i)] + split_on(s.skip(i + 1), sep)
    } else {
        seq![s]
    }
}

/// The views of the elements of `v`.
pub open spec fn views(v: Seq<Vec<char>>) -> Seq<Seq<char>> {
    v.map_values(|t: Vec<char>| t@)
}

/// The sum of the lengths of the pieces.
pub open spec fn total_len(pieces: Seq<Seq<char>>) -> int
    decreases pieces.len(),
{
    if pieces.len() == 0 {
        0
    } else {
        pieces.first().len() + total_len(pieces.drop_first())
    }
}

/// `token_len` is within bounds, and positive where the first character is
/// no white space.
pub proof fn lemma_token_len_bounds(s: Seq<char>)
    ensures
        0 <= token_len(s) <= s.len(),
        s.len() > 0 && !is_whitespace(s.first()) ==> token_len(s) >= 1,
    decreases s.len(),
{
    if s.len() > 0 && !is_whitespace(s.first()) {
        lemma_token_len_bounds(s.drop_first());
    }
}

/// A run of characters other than white space that ends at white space or
/// at the end is what `token_len` measures.
pub proof fn lemma_token_len(s: Seq<char>, b: int)
    requires
        0 <= b <= s.len(),
        forall|i: int| 0 <= i < b ==> !is_whitespace(s[i]),
        b == s.len() || is_whitespace(s[b]),
    ensures
        token_len(s) == b,
    decreases b,
{
    if b > 0 {
        let t = s.drop_first();
        assert forall|i: int| 0 <= i < b - 1 implies !is_whitespace(t[i]) by {
            assert(t[i] == s[i + 1]);
        }
        lemma_token_len(t, b - 1);
    }
}

/// Text that is all white space holds no word.
pub proof fn lemma_words_blank(s: Seq<char>)
    requires
        forall|i: int| 0 <= i < s.len() ==> is_whitespace(s[i]),
    ensures
        words(s) == Seq::<Seq<char>>::empty(),
{
    lemma_trim_start(s, s.len() as int);
}

/// After leading white space up to `a`, the run from `a` to `b` is the first
/// word, and the other words are those of the text from `b` on.
pub proof fn lemma_words_step(s: Seq<char>, a: int, b: int)
    requires
        0 <= a < b <= s.len(),
        forall|i: int| 0 <= i < a ==> is_whitespace(s[i]),
        forall|i: int| a <= i < b ==> !is_whitespace(s[i]),
        b == s.len() || is_whitespace(s[b]),
    ensures
        words(s) == seq![s.subrange(a, b)] + words(s.skip(b)),
{
    lemma_trim_start(s, a);
    let t = s.skip(a);
    lemma_token_len(t, b - a);
    assert(t.take(b - a) =~= s.subrange(a, b));
    assert(t.skip(b - a) =~= s.skip(b));
}

/// No piece is longer than the whole.
pub proof fn lemma_total_len_bounds(pieces: Seq<Seq<char>>, k: int)
    requires
        0 <= k < pieces.len(),
    ensures
        pieces[k].len() <= total_len(pieces),
        total_len(pieces) >= 0,
    decreases pieces.len(),
{
    lemma_total_len_nonneg(pieces.drop_first());
    if k > 0 {
        lemma_total_len_bounds(pieces.drop_first(), k - 1);
    }
}

/// A sum of lengths is not negative.
pub proof fn lemma_total_len_nonneg(pieces: Seq<Seq<char>>)
    ensures
        total_len(pieces) >= 0,
    decreases pieces.len(),
{
    if pieces.len() > 0 {
        lemma_total_len_nonneg(pieces.drop_first());
    }
}

/// Every word is non-empty, and the words together are no longer than the
/// text.
pub proof fn lemma_words_shape(s: Seq<char>)
    ensures
        forall|k: int| 0 <= k < words(s).len() ==> (#[trigger] words(s)[k]).len() >= 1,
        total_len(words(s)) <= s.len(),
    decreases s.len(),
{
    let t = trim_start(s);
    lemma_trim_start_shorter(s);
    if t.len() > 0 {
        lemma_token_len_bounds(t);
        let n = token_len(t);
        let rest = words(t.skip(n));
        lemma_words_shape(t.skip(n));
        let w = words(s);
        assert(w == seq![t.take(n)] + rest);
        assert forall|k: int| 0 <= k < w.len() implies (#[trigger] w[k]).len() >= 1 by {
            if k > 0 {
                assert(w[k] == rest[k - 1]);
            }
        }
        assert(w.drop_first() =~= rest);
    }
}

/// Two different pieces are together no longer than all the pieces.
pub proof fn lemma_two_pieces(pieces: Seq<Seq<char>>, i: int, j: int)
    requires
        0 <= i < pieces.len(),
        0 <= j < pieces.len(),
        i != j,
    ensures
        pieces[i].len() + pieces[j].len() <= total_len(pieces),
    decreases pieces.len(),
{
    let rest = pieces.drop_first();
    if i == 0 {
        lemma_total_len_bounds(rest, j - 1);
    } else if j == 0 {
        lemma_total_len_bounds(rest, i - 1);
    } else {
        lemma_two_pieces(rest, i - 1, j - 1);
    }
}

/// Where a text has two words or more, each is shorter than the text.
pub proof fn lemma_word_shorter(text: Seq<char>, k: int)
    requires
        words(text).len() >= 2,
        0 <= k < words(text).len(),
    ensures
        words(text)[k].len() < text.len(),
{
    let w = words(text);
    lemma_words_shape(text);
    let other = if k == 0 {
        1
    } else {
        0
    };
    lemma_two_pieces(w, k, other);
}

/// The pieces of a split and the separators between them add up to the text.
pub proof fn lemma_split_on_shape(s: Seq<char>, sep: char)
    ensures
        split_on(s, sep).len() >= 1,
        total_len(split_on(s, sep)) + split_on(s, sep).len() - 1 == s.len(),
    decreases s.len(),
{
    lemma_first_index(s, sep);
    let i = first_index(s, sep);
    let w = split_on(s, sep);
    if 0 <= i < s.len() {
        let rest = split_on(s.skip(i + 1), sep);
        lemma_split_on_shape(s.skip(i + 1), sep);
        assert(w == seq![s.take(i)] + rest);
        assert(w.drop_first() =~= rest);
    } else {
        assert(w.drop_first() =~= Seq::<Seq<char>>::empty());
        assert(total_len(w.drop_first()) == 0);
    }
}

/// The white-space-separated words of `v`, in order.
pub fn split_whitespace(v: &Vec<char>) -> (r: Vec<Vec<char>>)
    ensures
        views(r@) == words(v@),
{
    let mut r: Vec<Vec<char>> = Vec::new();
    let mut i: usize = 0;
    assert(views(r@) =~= Seq::<Seq<char>>::empty());
    assert(v@.skip(0) =~= v@);
    loop
        invariant
            i <= v.len(),
            words(v@) == views(r@) + words(v@.skip(i as int)),
        decreases v.len() - i,
    {
        let mut a: usize = i;
        while a < v.len() && is_space(v[a])
            invariant
                i <= a <= v.len(),
                forall|j: int| i <= j < a ==> is_whitespace(v@[j]),
            decreases v.len() - a,
        {
            a += 1;
        }
        if a == v.len() {
            proof {
                lemma_words_blank(v@.skip(i as int));
            }
            return r;
        }
        let mut b: usize = a + 1;
        while b < v.len() && !is_space(v[b])
            invariant
                a < b <= v.len(),
                forall|j: int| a <= j < b ==> !is_whitespace(v@[j]),
            decreases v.len() - b,
        {
            b += 1;
        }
        let word = slice(v, a, b);
        proof {
            let t = v@.skip(i as int);
            lemma_words_step(t, a - i, b - i);
            assert(t.subrange(a - i, b - i) =~= v@.subrange(a as int, b as int));
            assert(t.skip(b - i) =~= v@.skip(b as int));
            assert(views(r@.push(word)) =~= views(r@) + seq![word@]);
        }
        r.push(word);
        i = b;
    }
}

/// The pieces of `v` between occurrences of `sep`, in order.
pub fn split_char(v: &Vec<char>, sep: char) -> (r: Vec<Vec<char>>)
    ensures
        views(r@) == split_on(v@, sep),
{
    let mut r: Vec<Vec<char>> = Vec::new();
    let mut i: usize = 0;
    assert(views(r@) =~= Seq::<Seq<char>>::empty());
    assert(v@.skip(0) =~= v@);
    loop
        invariant
            i <= v.len(),
            split_on(v@, sep) == views(r@) + split_on(v@.skip(i as int), sep),
        decreases v.len() - i,
    {
        let mut b: usize = i;
        while b < v.len() && v[b] != sep
            invariant
                i <= b <= v.len(),
                forall|j: int| i <= j < b ==> v@[j] != sep,
            decreases v.len() - b,
        {
            b += 1;
        }
        let piece = slice(v, i, b);
        proof {
            let t = v@.skip(i as int);
            lemma_first_index(t, sep);
            assert(first_index(t, sep) == b - i) by {
                let f = first_index(t, sep);
                if f < b - i {
                    assert(t[f] == v@[i + f]);
                }
                if b < v.len() {
                    assert(t[b - i] == sep);
                }
            }
            assert(t.take(b - i) =~= v@.subrange(i as int, b as int));
            assert(views(r@.push(piece)) =~= views(r@) + seq![piece@]);
            if b < v.len() {
                assert(t.skip(b - i + 1) =~= v@.skip(b + 1));
            } else {
                assert(t =~= piece@);
            }
        }
        r.push(piece);
        if b == v.len() {
            return r;
        }
        i = b + 1;
    }
}

} // verus!
