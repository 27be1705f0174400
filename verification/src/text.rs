//! Character classes and the text operations the grammar is built from.
//!
//! Every operation is defined as a spec function on `Seq<char>` and
//! implemented on `Vec<char>` with a contract that equates the two.

use vstd::prelude::*;

verus! {

/// `String::push` appends the given character to the end of the string and
/// leaves the characters before it as they were.
pub assume_specification[ String::push ](s: &mut String, ch: char)
    ensures
        final(s)@ == old(s)@.push(ch),
;

/// The Unicode `White_Space` property, by code point.
pub open spec fn is_whitespace(c: char) -> bool {
    let n = c as u32;
    ||| 0x09 <= n <= 0x0D
    ||| n == 0x20
    ||| n == 0x85
    ||| n == 0xA0
    ||| n == 0x1680
    ||| 0x2000 <= n <= 0x200A
    ||| n == 0x2028
    ||| n == 0x2029
    ||| n == 0x202F
    ||| n == 0x205F
    ||| n == 0x3000
}

/// `s` without its leading white space.
pub open spec fn trim_start(s: Seq<char>) -> Seq<char>
    decreases s.len(),
{
    if s.len() > 0 && is_whitespace(s.first()) {
        trim_start(s.drop_first())
    } else {
        s
    }
}

/// `s` without its trailing white space.
pub open spec fn trim_end(s: Seq<char>) -> Seq<char>
    decreases s.len(),
{
    if s.len() > 0 && is_whitespace(s.last()) {
        trim_end(s.drop_last())
    } else {
        s
    }
}

/// `s` without leading and trailing white space.
pub open spec fn trim(s: Seq<char>) -> Seq<char> {
    trim_end(trim_start(s))
}

/// Index of the first `c` in `s`, or `s.len()` where `s` holds no `c`.
pub open spec fn first_index(s: Seq<char>, c: char) -> int
    decreases s.len(),
{
    if s.len() == 0 || s.first() == c {
        0
    } else {
        1 + first_index(s.drop_first(), c)
    }
}

/// Index of the last `c` in `s`, or `-1` where `s` holds no `c`.
pub open spec fn last_index(s: Seq<char>, c: char) -> int
    decreases s.len(),
{
    if s.len() == 0 {
        -1
    } else if s.last() == c {
        s.len() - 1
    } else {
        last_index(s.drop_last(), c)
    }
}

/// `first_index` is within bounds, points at a `c` unless it is the length,
/// and no `c` stands before it.
pub proof fn lemma_first_index(s: Seq<char>, c: char)
    ensures
        0 <= first_index(s, c) <= s.len(),
        first_index(s, c) < s.len() ==> s[first_index(s, c)] == c,
        forall|j: int| 0 <= j < first_index(s, c) ==> s[j] != c,
        first_index(s, c) < s.len() <==> s.contains(c),
    decreases s.len(),
{
    if s.len() == 0 || s.first() == c {
    } else {
        let t = s.drop_first();
        lemma_first_index(t, c);
        let k = first_index(t, c);
        assert forall|j: int| 0 <= j < k + 1 implies s[j] != c by {
            if j > 0 {
                assert(s[j] == t[j - 1]);
            }
        }
        if k < t.len() {
            assert(s[k + 1] == t[k]);
        }
    }
    let r = first_index(s, c);
    if s.contains(c) {
        let w = choose|i: int| 0 <= i < s.len() && s[i] == c;
        assert(r <= w);
    }
}

/// `last_index` is within bounds, points at a `c` unless it is `-1`, and no
/// `c` stands after it.
pub proof fn lemma_last_index(s: Seq<char>, c: char)
    ensures
        -1 <= last_index(s, c) < s.len(),
        last_index(s, c) >= 0 ==> s[last_index(s, c)] == c,
        forall|j: int| last_index(s, c) < j < s.len() ==> s[j] != c,
        last_index(s, c) >= 0 <==> s.contains(c),
    decreases s.len(),
{
    if s.len() == 0 {
    } else if s.last() == c {
    } else {
        let t = s.drop_last();
        lemma_last_index(t, c);
        let k = last_index(t, c);
        assert forall|j: int| k < j < s.len() implies s[j] != c by {
            if j < t.len() {
                assert(s[j] == t[j]);
            }
        }
        if k >= 0 {
            assert(s[k] == t[k]);
        }
    }
    let r = last_index(s, c);
    if s.contains(c) {
        let w = choose|i: int| 0 <= i < s.len() && s[i] == c;
        assert(w <= r);
    }
}

/// Leading white space up to a first other character is what `trim_start`
/// removes.
pub proof fn lemma_trim_start(s: Seq<char>, a: int)
    requires
        0 <= a <= s.len(),
        forall|i: int| 0 <= i < a ==> is_whitespace(s[i]),
        a == s.len() || !is_whitespace(s[a]),
    ensures
        trim_start(s) == s.skip(a),
    decreases a,
{
    if a == 0 {
        assert(s.skip(0) =~= s);
    } else {
        let t = s.drop_first();
        assert forall|i: int| 0 <= i < a - 1 implies is_whitespace(t[i]) by {
            assert(t[i] == s[i + 1]);
        }
        lemma_trim_start(t, a - 1);
        assert(t.skip(a - 1) =~= s.skip(a));
    }
}

/// Trailing white space back to a last other character is what `trim_end`
/// removes.
pub proof fn lemma_trim_end(s: Seq<char>, b: int)
    requires
        0 <= b <= s.len(),
        forall|i: int| b <= i < s.len() ==> is_whitespace(s[i]),
        b == 0 || !is_whitespace(s[b - 1]),
    ensures
        trim_end(s) == s.take(b),
    decreases s.len() - b,
{
    if b == s.len() {
        assert(s.take(b) =~= s);
    } else {
        let t = s.drop_last();
        lemma_trim_end(t, b);
        assert(t.take(b) =~= s.take(b));
    }
}

/// `trim_start` returns a suffix, which starts with a character other than
/// white space unless it is empty.
pub proof fn lemma_trim_start_shorter(s: Seq<char>)
    ensures
        trim_start(s).len() <= s.len(),
        trim_start(s) == s.skip(s.len() - trim_start(s).len()),
        trim_start(s).len() > 0 ==> !is_whitespace(trim_start(s).first()),
    decreases s.len(),
{
    if s.len() > 0 && is_whitespace(s.first()) {
        let t = s.drop_first();
        lemma_trim_start_shorter(t);
        assert(t.skip(t.len() - trim_start(t).len()) =~= s.skip(s.len() - trim_start(s).len()));
    } else {
        assert(s.skip(0) =~= s);
    }
}

/// `trim_end` does not lengthen.
pub proof fn lemma_trim_end_shorter(s: Seq<char>)
    ensures
        trim_end(s).len() <= s.len(),
    decreases s.len(),
{
    if s.len() > 0 && is_whitespace(s.last()) {
        lemma_trim_end_shorter(s.drop_last());
    }
}

/// Trimming does not lengthen.
pub proof fn lemma_trim_shorter(s: Seq<char>)
    ensures
        trim(s).len() <= s.len(),
{
    lemma_trim_start_shorter(s);
    lemma_trim_end_shorter(trim_start(s));
}

/// Tells whether `c` is white space.
pub fn is_space(c: char) -> (b: bool)
    ensures
        b == is_whitespace(c),
{
    let n: u32 = c as u32;
    (0x09 <= n && n <= 0x0D) || n == 0x20 || n == 0x85 || n == 0xA0 || n == 0x1680 || (0x2000 <= n
        && n <= 0x200A) || n == 0x2028 || n == 0x2029 || n == 0x202F || n == 0x205F || n == 0x3000
}

/// The characters of `s`, in order.
pub fn chars_of(s: &str) -> (v: Vec<char>)
    ensures
        v@ == s@,
{
    let mut v: Vec<char> = Vec::new();
    for c in it: s.chars()
        invariant
            it.seq() == s@,
            v@ == s@.take(it.index()),
    {
        v.push(c);
        assert(v@ =~= s@.take(it.index() + 1));
    }
    assert(v@ =~= s@);
    v
}

/// The string made of the characters of `v`, in order.
pub fn string_of(v: &Vec<char>) -> (s: String)
    ensures
        s@ == v@,
{
    let mut s = String::new();
    let mut i: usize = 0;
    while i < v.len()
        invariant
            i <= v.len(),
            s@ == v@.take(i as int),
        decreases v.len() - i,
    {
        s.push(v[i]);
        i += 1;
        assert(s@ =~= v@.take(i as int));
    }
    assert(s@ =~= v@);
    s
}

/// A copy of the characters of `v` from index `from` up to, not including,
/// index `to`.
pub fn slice(v: &Vec<char>, from: usize, to: usize) -> (r: Vec<char>)
    requires
        from <= to <= v.len(),
    ensures
        r@ == v@.subrange(from as int, to as int),
{
    let mut r: Vec<char> = Vec::new();
    let mut i: usize = from;
    while i < to
        invariant
            from <= i <= to <= v.len(),
            r@ == v@.subrange(from as int, i as int),
        decreases to - i,
    {
        r.push(v[i]);
        i += 1;
        assert(r@ =~= v@.subrange(from as int, i as int));
    }
    r
}

/// Tells whether `c` occurs in `v`.
pub fn contains_char(v: &Vec<char>, c: char) -> (b: bool)
    ensures
        b == v@.contains(c),
{
    let mut i: usize = 0;
    while i < v.len()
        invariant
            i <= v.len(),
            forall|j: int| 0 <= j < i ==> v@[j] != c,
        decreases v.len() - i,
    {
        if v[i] == c {
            return true;
        }
        i += 1;
    }
    false
}

/// Position of the first `c` in `v`, if there is one.
pub fn find_first(v: &Vec<char>, c: char) -> (r: Option<usize>)
    ensures
        match r {
            Some(i) => i < v.len() && v@[i as int] == c && i as int == first_index(v@, c),
            None => !v@.contains(c),
        },
{
    let mut i: usize = 0;
    while i < v.len()
        invariant
            i <= v.len(),
            forall|j: int| 0 <= j < i ==> v@[j] != c,
        decreases v.len() - i,
    {
        if v[i] == c {
            proof {
                lemma_first_index(v@, c);
            }
            return Some(i);
        }
        i += 1;
    }
    None
}

/// Position of the last `c` in `v`, if there is one.
pub fn find_last(v: &Vec<char>, c: char) -> (r: Option<usize>)
    ensures
        match r {
            Some(i) => i < v.len() && v@[i as int] == c && i as int == last_index(v@, c),
            None => !v@.contains(c),
        },
{
    let mut i: usize = v.len();
    while i > 0
        invariant
            i <= v.len(),
            forall|j: int| i <= j < v.len() ==> v@[j] != c,
        decreases i,
    {
        i -= 1;
        if v[i] == c {
            proof {
                lemma_last_index(v@, c);
            }
            return Some(i);
        }
    }
    None
}

/// A copy of `v` without leading and trailing white space.
pub fn trimmed(v: &Vec<char>) -> (r: Vec<char>)
    ensures
        r@ == trim(v@),
{
    let mut a: usize = 0;
    while a < v.len() && is_space(v[a])
        invariant
            a <= v.len(),
            forall|i: int| 0 <= i < a ==> is_whitespace(v@[i]),
        decreases v.len() - a,
    {
        a += 1;
    }
    let mut b: usize = v.len();
    while b > a && is_space(v[b - 1])
        invariant
            a <= b <= v.len(),
            forall|i: int| b <= i < v.len() ==> is_whitespace(v@[i]),
        decreases b,
    {
        b -= 1;
    }
    proof {
        lemma_trim_start(v@, a as int);
        let t = v@.skip(a as int);
        lemma_trim_end(t, b - a);
        assert(t.take(b - a) =~= v@.subrange(a as int, b as int));
    }
    slice(v, a, b)
}

} // verus!
