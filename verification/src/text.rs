//! Text utilities shared by the configuration and the launch logic: the
//! order of names, cutting a text at its spaces, and putting texts together.

use vstd::prelude::*;
use vstd::string::StringExecFns;

verus! {

/// Lexicographic order of two texts by the code points of their characters;
/// a proper prefix comes before the longer text.
pub open spec fn lex_less(a: Seq<char>, b: Seq<char>) -> bool
    decreases a.len(),
{
    if b.len() == 0 {
        false
    } else if a.len() == 0 {
        true
    } else if a[0] != b[0] {
        (a[0] as u32) < (b[0] as u32)
    } else {
        lex_less(a.drop_first(), b.drop_first())
    }
}

/// Each text comes before all that follow it.
pub open spec fn strictly_sorted(keys: Seq<Seq<char>>) -> bool {
    forall|i: int, j: int| 0 <= i < j < keys.len() ==> lex_less(#[trigger] keys[i], #[trigger] keys[j])
}

/// No text comes before itself.
pub proof fn lemma_lex_less_irreflexive(a: Seq<char>)
    ensures
        !lex_less(a, a),
    decreases a.len(),
{
    if a.len() > 0 {
        lemma_lex_less_irreflexive(a.drop_first());
    }
}

/// The order is transitive.
pub proof fn lemma_lex_less_transitive(a: Seq<char>, b: Seq<char>, c: Seq<char>)
    requires
        lex_less(a, b),
        lex_less(b, c),
    ensures
        lex_less(a, c),
    decreases a.len(),
{
    if a.len() > 0 && a[0] == b[0] && b[0] == c[0] {
        lemma_lex_less_transitive(a.drop_first(), b.drop_first(), c.drop_first());
    }
}

/// Two different texts are ordered one way or the other.
pub proof fn lemma_lex_less_total(a: Seq<char>, b: Seq<char>)
    requires
        a != b,
    ensures
        lex_less(a, b) || lex_less(b, a),
    decreases a.len(),
{
    if a.len() == 0 || b.len() == 0 {
        if a.len() == 0 && b.len() == 0 {
            assert(a =~= b);
        }
    } else if a[0] == b[0] {
        if a.drop_first() == b.drop_first() {
            assert(a =~= seq![a[0]] + a.drop_first());
            assert(b =~= seq![b[0]] + b.drop_first());
        }
        lemma_lex_less_total(a.drop_first(), b.drop_first());
    } else {
        assert(a[0] as u32 != b[0] as u32) by {
            vstd::utf8::char_u32_cast(a[0], a[0] as u32);
            vstd::utf8::char_u32_cast(b[0], b[0] as u32);
        }
    }
}

proof fn lemma_lex_less_skip(a: Seq<char>, b: Seq<char>, n: int)
    requires
        0 <= n <= a.len(),
        n <= b.len(),
        forall|j: int| 0 <= j < n ==> a[j] == b[j],
    ensures
        lex_less(a, b) == lex_less(a.skip(n), b.skip(n)),
    decreases n,
{
    if n == 0 {
        assert(a.skip(0) =~= a);
        assert(b.skip(0) =~= b);
    } else {
        lemma_lex_less_skip(a, b, n - 1);
        let x = a.skip(n - 1);
        let y = b.skip(n - 1);
        assert(x[0] == a[n - 1] && y[0] == b[n - 1]);
        assert(x.drop_first() =~= a.skip(n));
        assert(y.drop_first() =~= b.skip(n));
    }
}

/// Whether `a` comes before `b` in the order of `lex_less`, which is the
/// order of `str`.
pub fn str_less(a: &str, b: &str) -> (r: bool)
    ensures
        r == lex_less(a@, b@),
{
    let n = a.unicode_len();
    let m = b.unicode_len();
    let mut i: usize = 0;
    while i < n && i < m
        invariant
            n == a@.len(),
            m == b@.len(),
            i <= n,
            i <= m,
            forall|j: int| 0 <= j < i ==> a@[j] == b@[j],
        decreases n - i,
    {
        let x = a.get_char(i);
        let y = b.get_char(i);
        if x != y {
            proof {
                lemma_lex_less_skip(a@, b@, i as int);
                assert(a@.skip(i as int)[0] == x && b@.skip(i as int)[0] == y);
            }
            return (x as u32) < (y as u32);
        }
        i = i + 1;
    }
    proof {
        lemma_lex_less_skip(a@, b@, i as int);
    }
    i < m
}

/// The texts of a sequence of strings.
pub open spec fn texts(strings: Seq<String>) -> Seq<Seq<char>> {
    Seq::new(strings.len(), |i: int| strings[i]@)
}

/// The position of the first space at or after `from`, or the length of
/// the text where none follows.
pub open spec fn next_space(s: Seq<char>, from: int) -> int
    decreases s.len() - from,
{
    if from >= s.len() {
        s.len() as int
    } else if s[from] == ' ' {
        from
    } else {
        next_space(s, from + 1)
    }
}

/// The pieces of the part of `s` that starts at `from`, cut at every single
/// space. Two spaces in a row enclose an empty piece, and so do a space at
/// the start or the end and the border of the text.
pub open spec fn split_from(s: Seq<char>, from: int) -> Seq<Seq<char>>
    decreases s.len() - from,
{
    let i = next_space(s, from);
    if 0 <= from <= i < s.len() {
        seq![s.subrange(from, i)] + split_from(s, i + 1)
    } else {
        seq![s.subrange(from, s.len() as int)]
    }
}

/// The pieces of a text cut at every single space; never empty.
pub open spec fn split_spaces(s: Seq<char>) -> Seq<Seq<char>> {
    split_from(s, 0)
}

/// Splits a text at every single space. Spaces are not collapsed: `"a  b"`
/// gives `"a"`, `""` and `"b"`.
pub fn split_on_space(text: &str) -> (tokens: Vec<String>)
    ensures
        texts(tokens@) == split_spaces(text@),
{
    let mut tokens: Vec<String> = Vec::new();
    let n = text.unicode_len();
    let mut start: usize = 0;
    let mut i: usize = 0;
    while i < n
        invariant
            n == text@.len(),
            start <= i <= n,
            forall|j: int| start <= j < i ==> text@[j] != ' ',
            texts(tokens@) + split_from(text@, start as int) == split_spaces(text@),
        decreases n - i,
    {
        if text.get_char(i) == ' ' {
            let token = text.substring_char(start, i).to_owned();
            proof {
                lemma_next_space_at(text@, start as int, i as int);
                assert(texts(tokens@.push(token)) =~= texts(tokens@) + seq![text@.subrange(start as int, i as int)]);
            }
            tokens.push(token);
            start = i + 1;
        }
        i = i + 1;
    }
    let token = text.substring_char(start, n).to_owned();
    proof {
        lemma_next_space_at(text@, start as int, n as int);
        assert(texts(tokens@.push(token)) =~= texts(tokens@) + seq![text@.subrange(start as int, n as int)]);
    }
    tokens.push(token);
    tokens
}

proof fn lemma_next_space_at(s: Seq<char>, from: int, at: int)
    requires
        0 <= from <= at <= s.len(),
        forall|j: int| from <= j < at ==> s[j] != ' ',
        at < s.len() ==> s[at] == ' ',
    ensures
        next_space(s, from) == at,
    decreases at - from,
{
    if from < at {
        lemma_next_space_at(s, from + 1, at);
    }
}

/// The two texts one after the other.
pub fn join_texts(a: &str, b: &str) -> (joined: String)
    ensures
        joined@ == a@ + b@,
{
    let mut joined = a.to_owned();
    joined.append(b);
    joined
}

/// Appends copies of the strings of `items` to `target`.
pub fn append_all(target: &mut Vec<String>, items: &[String])
    ensures
        texts(final(target)@) == texts(old(target)@) + texts(items@),
{
    let mut i: usize = 0;
    assert(texts(target@) =~= texts(old(target)@) + texts(items@).take(0));
    while i < items.len()
        invariant
            i <= items@.len(),
            texts(target@) == texts(old(target)@) + texts(items@).take(i as int),
        decreases items@.len() - i,
    {
        let ghost before = target@;
        let item = items[i].clone();
        target.push(item);
        proof {
            let sum = texts(old(target)@) + texts(items@).take(i + 1);
            assert(texts(before).len() == before.len());
            assert(texts(items@).take(i as int).len() == i);
            assert forall|j: int| 0 <= j < sum.len() implies texts(target@)[j] == sum[j] by {
                if j < before.len() {
                    assert(texts(before)[j] == (texts(old(target)@) + texts(items@).take(i as int))[j]);
                }
            }
            assert(texts(target@) =~= sum);
        }
        i = i + 1;
    }
    assert(texts(items@).take(items@.len() as int) =~= texts(items@));
}

/// A set of texts has one ascending order only.
pub proof fn lemma_sorted_unique(a: Seq<Seq<char>>, b: Seq<Seq<char>>)
    requires
        strictly_sorted(a),
        strictly_sorted(b),
        a.to_set() =~= b.to_set(),
    ensures
        a == b,
    decreases a.len(),
{
    if a.len() == 0 || b.len() == 0 {
        if a.len() > 0 {
            assert(a.contains(a[0]));
            assert(b.to_set().contains(a[0]));
        }
        if b.len() > 0 {
            assert(b.contains(b[0]));
            assert(a.to_set().contains(b[0]));
        }
        assert(a =~= b);
    } else {
        assert(a.contains(a[0]));
        assert(b.to_set().contains(a[0]));
        let j = choose|j: int| 0 <= j < b.len() && b[j] == a[0];
        assert(b.contains(b[0]));
        assert(a.to_set().contains(b[0]));
        let k = choose|k: int| 0 <= k < a.len() && a[k] == b[0];
        if a[0] != b[0] {
            assert(lex_less(b[0], b[j]));
            assert(lex_less(a[0], a[k]));
            lemma_lex_less_transitive(a[0], b[0], a[0]);
            lemma_lex_less_irreflexive(a[0]);
        }
        let at = a.drop_first();
        let bt = b.drop_first();
        assert(strictly_sorted(at)) by {
            assert forall|i: int, j: int| 0 <= i < j < at.len() implies lex_less(#[trigger] at[i], #[trigger] at[j]) by {
                assert(lex_less(a[i + 1], a[j + 1]));
            }
        }
        assert(strictly_sorted(bt)) by {
            assert forall|i: int, j: int| 0 <= i < j < bt.len() implies lex_less(#[trigger] bt[i], #[trigger] bt[j]) by {
                assert(lex_less(b[i + 1], b[j + 1]));
            }
        }
        assert forall|x: Seq<char>| at.to_set().contains(x) <==> bt.to_set().contains(x) by {
            lemma_lex_less_irreflexive(x);
            if at.contains(x) {
                let i = choose|i: int| 0 <= i < at.len() && at[i] == x;
                assert(a[i + 1] == x);
                assert(lex_less(a[0], a[i + 1]));
                assert(a.contains(x));
                assert(b.to_set().contains(x));
                let m = choose|m: int| 0 <= m < b.len() && b[m] == x;
                assert(bt[m - 1] == x);
            }
            if bt.contains(x) {
                let i = choose|i: int| 0 <= i < bt.len() && bt[i] == x;
                assert(b[i + 1] == x);
                assert(lex_less(b[0], b[i + 1]));
                assert(b.contains(x));
                assert(a.to_set().contains(x));
                let m = choose|m: int| 0 <= m < a.len() && a[m] == x;
                assert(at[m - 1] == x);
            }
        }
        lemma_sorted_unique(at, bt);
        assert(a =~= seq![a[0]] + at);
        assert(b =~= seq![b[0]] + bt);
    }
}

} // verus!
