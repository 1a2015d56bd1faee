//! Splitting text into whitespace-separated tokens.
//!
//! Text is modelled as a `Seq<char>`. A token is a maximal run of characters
//! that are not whitespace; `tokens` lists the tokens of a text in order.

use vstd::prelude::*;

verus! {

/// Whether `c` is whitespace in the sense of Unicode (`White_Space`).
pub open spec fn whitespace(c: char) -> bool {
    let code: u32 = c as u32;
    ||| 0x09 <= code <= 0x0D
    ||| code == 0x20
    ||| code == 0x85
    ||| code == 0xA0
    ||| code == 0x1680
    ||| 0x2000 <= code <= 0x200A
    ||| code == 0x2028
    ||| code == 0x2029
    ||| code == 0x202F
    ||| code == 0x205F
    ||| code == 0x3000
}

/// Whether `c` is a whitespace character.
pub fn is_whitespace(c: char) -> (b: bool)
    ensures
        b == whitespace(c),
{
    let code: u32 = c as u32;
    (0x09 <= code && code <= 0x0D) || code == 0x20 || code == 0x85 || code == 0xA0 || code
        == 0x1680 || (0x2000 <= code && code <= 0x200A) || code == 0x2028 || code == 0x2029
        || code == 0x202F || code == 0x205F || code == 0x3000
}

/// Whether `s` is a word: not empty, and free of whitespace.
pub open spec fn is_word(s: Seq<char>) -> bool {
    &&& s.len() > 0
    &&& forall|i: int| 0 <= i < s.len() ==> !whitespace(#[trigger] s[i])
}

/// The length of the longest prefix of `s` that holds no whitespace.
pub open spec fn word_len(s: Seq<char>) -> nat
    decreases s.len(),
{
    if s.len() == 0 || whitespace(s[0]) {
        0
    } else {
        1 + word_len(s.drop_first())
    }
}

/// The tokens of `s`: its maximal runs of non-whitespace characters, from
/// left to right.
pub open spec fn tokens(s: Seq<char>) -> Seq<Seq<char>>
    decreases s.len(),
{
    if s.len() == 0 {
        Seq::empty()
    } else if whitespace(s[0]) {
        tokens(s.drop_first())
    } else {
        let n: int = word_len(s) as int;
        proof {
            lemma_word_len(s);
        }
        seq![s.take(n)] + tokens(s.skip(n))
    }
}

/// `word_len(s)` marks the end of a whitespace-free prefix that cannot be
/// extended: it is at most `s.len()`, no character before it is whitespace,
/// and the character at it, if there is one, is whitespace.
pub proof fn lemma_word_len(s: Seq<char>)
    ensures
        word_len(s) <= s.len(),
        s.len() > 0 && !whitespace(s[0]) ==> word_len(s) >= 1,
        forall|i: int| 0 <= i < word_len(s) ==> !whitespace(#[trigger] s[i]),
        word_len(s) < s.len() ==> whitespace(s[word_len(s) as int]),
    decreases s.len(),
{
    if s.len() > 0 && !whitespace(s[0]) {
        let rest = s.drop_first();
        lemma_word_len(rest);
        assert forall|i: int| 0 < i < word_len(s) implies !whitespace(#[trigger] s[i]) by {
            assert(s[i] == rest[i - 1]);
        }
    }
}

/// A whitespace-free prefix of length `n` that ends the text or is followed
/// by whitespace is the longest one.
pub proof fn lemma_word_len_is(s: Seq<char>, n: int)
    requires
        0 <= n <= s.len(),
        forall|i: int| 0 <= i < n ==> !whitespace(#[trigger] s[i]),
        n < s.len() ==> whitespace(s[n]),
    ensures
        word_len(s) == n,
    decreases n,
{
    if n > 0 {
        lemma_word_len_is(s.drop_first(), n - 1);
    }
}

/// A word is its own single token.
pub proof fn lemma_tokens_of_word(w: Seq<char>)
    requires
        is_word(w),
    ensures
        tokens(w) == seq![w],
{
    lemma_word_len_is(w, w.len() as int);
    assert(w.take(w.len() as int) == w);
    assert(tokens(w.skip(w.len() as int)) == Seq::<Seq<char>>::empty());
}

/// Tokens never reach across whitespace: where a whitespace character stands
/// between `a` and `b`, the tokens of the whole are those of `a` followed by
/// those of `b`.
pub proof fn lemma_tokens_split(a: Seq<char>, gap: char, b: Seq<char>)
    requires
        whitespace(gap),
    ensures
        tokens(a + seq![gap] + b) == tokens(a) + tokens(b),
    decreases a.len(),
{
    let s = a + seq![gap] + b;
    if a.len() == 0 {
        assert(s.drop_first() == b);
    } else if whitespace(a[0]) {
        lemma_tokens_split(a.drop_first(), gap, b);
        assert(s.drop_first() == a.drop_first() + seq![gap] + b);
    } else {
        let n: int = word_len(a) as int;
        lemma_word_len(a);
        lemma_word_len_is(s, n);
        lemma_tokens_split(a.skip(n), gap, b);
        assert(s.take(n) == a.take(n));
        assert(s.skip(n) == a.skip(n) + seq![gap] + b);
    }
}

/// The characters of `text`, in order.
pub fn chars_of(text: &str) -> (chars: Vec<char>)
    ensures
        chars@ == text@,
{
    let mut chars: Vec<char> = Vec::new();
    for c in it: text.chars()
        invariant
            it.seq() == text@,
            chars@ == text@.take(it.index() as int),
    {
        chars.push(c);
    }
    chars
}

/// The views of the words held in `words`.
pub open spec fn word_views(words: Seq<Vec<char>>) -> Seq<Seq<char>> {
    words.map_values(|w: Vec<char>| w@)
}

/// Splits `text` into its tokens.
pub fn split_whitespace(text: &[char]) -> (words: Vec<Vec<char>>)
    ensures
        word_views(words@) == tokens(text@),
{
    let n: usize = text.len();
    let mut words: Vec<Vec<char>> = Vec::new();
    let mut i: usize = 0;
    proof {
        assert(text@.skip(0) == text@);
    }
    while i < n
        invariant
            n == text@.len(),
            i <= n,
            tokens(text@) == word_views(words@) + tokens(text@.skip(i as int)),
        decreases n - i,
    {
        let ghost rest = text@.skip(i as int);
        if is_whitespace(text[i]) {
            assert(rest.drop_first() == text@.skip(i + 1));
            i += 1;
        } else {
            let start: usize = i;
            let mut word: Vec<char> = Vec::new();
            while i < n && !is_whitespace(text[i])
                invariant
                    n == text@.len(),
                    start <= i <= n,
                    word@ == text@.subrange(start as int, i as int),
                    forall|k: int| start <= k < i ==> !whitespace(#[trigger] text@[k]),
                decreases n - i,
            {
                word.push(text[i]);
                i += 1;
            }
            proof {
                let len: int = i - start;
                lemma_word_len_is(rest, len);
                assert(rest.take(len) == word@);
                assert(rest.skip(len) == text@.skip(i as int));
            }
            words.push(word);
        }
    }
    words
}

} // verus!
