//! Whitespace and tokens: how a line of source text falls into words.

use vstd::prelude::*;
use vstd::string::*;

verus! {

/// The characters that separate tokens: Unicode's `White_Space` set.
pub open spec fn is_space(c: char) -> bool {
    let u = c as u32;
    ||| 0x09 <= u <= 0x0d
    ||| u == 0x20
    ||| u == 0x85
    ||| u == 0xa0
    ||| u == 0x1680
    ||| 0x2000 <= u <= 0x200a
    ||| u == 0x2028
    ||| u == 0x2029
    ||| u == 0x202f
    ||| u == 0x205f
    ||| u == 0x3000
}

/// A word as it can stand between separators: not empty, no separator in it.
pub open spec fn is_word(w: Seq<char>) -> bool {
    &&& w.len() > 0
    &&& forall|i: int| 0 <= i < w.len() ==> !is_space(#[trigger] w[i])
}

/// Length of the longest prefix of `s` that holds no separator.
pub open spec fn word_len(s: Seq<char>) -> nat
    decreases s.len(),
{
    if s.len() == 0 || is_space(s[0]) {
        0
    } else {
        1 + word_len(s.skip(1))
    }
}

/// The tokens of `s`: its maximal runs of non-separator characters, in order.
/// A run that starts at a non-separator is never empty and never longer than
/// the text (`lemma_word_len`), so the last branch is never taken.
pub open spec fn tokens(s: Seq<char>) -> Seq<Seq<char>>
    decreases s.len(),
{
    if s.len() == 0 {
        Seq::empty()
    } else if is_space(s[0]) {
        tokens(s.skip(1))
    } else {
        let n = word_len(s);
        if 0 < n <= s.len() {
            seq![s.take(n as int)] + tokens(s.skip(n as int))
        } else {
            Seq::empty()
        }
    }
}

/// The character sequences that a vector of strings holds.
pub open spec fn texts(v: Seq<String>) -> Seq<Seq<char>> {
    Seq::new(v.len(), |i: int| v[i]@)
}

/// `word_len` never runs past the end, and the prefix it measures is
/// separator-free and is followed by a separator or by the end.
pub proof fn lemma_word_len(s: Seq<char>)
    ensures
        word_len(s) <= s.len(),
        forall|i: int| 0 <= i < word_len(s) ==> !is_space(#[trigger] s[i]),
        word_len(s) < s.len() ==> is_space(s[word_len(s) as int]),
        s.len() > 0 && !is_space(s[0]) ==> word_len(s) > 0,
    decreases s.len(),
{
    if s.len() == 0 || is_space(s[0]) {
    } else {
        lemma_word_len(s.skip(1));
        assert forall|i: int| 0 <= i < word_len(s) implies !is_space(#[trigger] s[i]) by {
            if i > 0 {
                assert(s[i] == s.skip(1)[i - 1]);
            }
        }
        if word_len(s) < s.len() {
            assert(s[word_len(s) as int] == s.skip(1)[word_len(s.skip(1)) as int]);
        }
    }
}

/// Every token is a word.
pub proof fn lemma_tokens_are_words(s: Seq<char>)
    ensures
        forall|k: int| 0 <= k < tokens(s).len() ==> is_word(#[trigger] tokens(s)[k]),
    decreases s.len(),
{
    if s.len() == 0 {
        assert(tokens(s).len() == 0);
    } else if is_space(s[0]) {
        lemma_tokens_are_words(s.skip(1));
        assert(tokens(s) == tokens(s.skip(1)));
    } else {
        lemma_word_len(s);
        let n = word_len(s) as int;
        assert(tokens(s) == seq![s.take(n)] + tokens(s.skip(n)));
        lemma_tokens_are_words(s.skip(n));
        assert(is_word(s.take(n)));
        assert forall|k: int| 0 <= k < tokens(s).len() implies is_word(#[trigger] tokens(s)[k]) by {
            if k > 0 {
                assert(tokens(s)[k] == tokens(s.skip(n))[k - 1]);
            }
        }
    }
}

/// The words of `ws`, each led by one blank.
pub open spec fn led(ws: Seq<Seq<char>>) -> Seq<char>
    decreases ws.len(),
{
    if ws.len() == 0 {
        Seq::empty()
    } else {
        seq![' '] + ws[0] + led(ws.skip(1))
    }
}

/// The words of `ws` with one blank between neighbours.
pub open spec fn spaced(ws: Seq<Seq<char>>) -> Seq<char> {
    if ws.len() == 0 {
        Seq::empty()
    } else {
        ws[0] + led(ws.skip(1))
    }
}

/// Whether each of `ws` is a word.
pub open spec fn all_words(ws: Seq<Seq<char>>) -> bool {
    forall|k: int| 0 <= k < ws.len() ==> is_word(#[trigger] ws[k])
}

/// Splitting undoes spacing: the tokens of words joined by blanks are the
/// words.
pub proof fn lemma_tokens_spaced(ws: Seq<Seq<char>>)
    requires
        all_words(ws),
    ensures
        tokens(spaced(ws)) == ws,
{
    if ws.len() == 0 {
        assert(ws =~= Seq::<Seq<char>>::empty());
    } else {
        lemma_tokens_led(ws);
        let s = led(ws);
        assert(is_space(s[0]));
        assert(s.skip(1) =~= spaced(ws));
    }
}

/// The tokens of words that are each led by a blank are the words.
proof fn lemma_tokens_led(ws: Seq<Seq<char>>)
    requires
        all_words(ws),
    ensures
        tokens(led(ws)) == ws,
    decreases ws.len(),
{
    if ws.len() == 0 {
        assert(ws =~= Seq::<Seq<char>>::empty());
    } else {
        let w = ws[0];
        let rest = ws.skip(1);
        let s = led(ws);
        let t = w + led(rest);
        assert(is_word(w));
        assert(is_space(s[0]));
        assert(s.skip(1) =~= t);
        assert forall|k: int| 0 <= k < rest.len() implies is_word(#[trigger] rest[k]) by {
            assert(rest[k] == ws[k + 1]);
        }
        lemma_tokens_led(rest);
        lemma_word_run(w, led(rest));
        assert(t[0] == w[0]);
        assert(t.take(w.len() as int) =~= w);
        assert(t.skip(w.len() as int) =~= led(rest));
        assert(tokens(t) == seq![w] + tokens(led(rest)));
        assert(seq![w] + rest =~= ws);
    }
}

/// The run that starts a text made of a word and a tail, where the tail is
/// empty or starts with a separator, is the word.
proof fn lemma_word_run(w: Seq<char>, tail: Seq<char>)
    requires
        forall|i: int| 0 <= i < w.len() ==> !is_space(#[trigger] w[i]),
        tail.len() == 0 || is_space(tail[0]),
    ensures
        word_len(w + tail) == w.len(),
    decreases w.len(),
{
    let s = w + tail;
    if w.len() == 0 {
        assert(s =~= tail);
    } else {
        assert(s[0] == w[0]);
        assert(s.skip(1) =~= w.skip(1) + tail);
        assert forall|i: int| 0 <= i < w.skip(1).len() implies !is_space(
            #[trigger] w.skip(1)[i],
        ) by {
            assert(w.skip(1)[i] == w[i + 1]);
        }
        lemma_word_run(w.skip(1), tail);
    }
}

/// Whether `c` separates tokens.
pub fn is_whitespace(c: char) -> (r: bool)
    ensures
        r == is_space(c),
{
    let u: u32 = c as u32;
    (0x09 <= u && u <= 0x0d) || u == 0x20 || u == 0x85 || u == 0xa0 || u == 0x1680 || (0x2000 <= u
        && u <= 0x200a) || u == 0x2028 || u == 0x2029 || u == 0x202f || u == 0x205f || u == 0x3000
}

/// The characters of `s`, one by one.
pub fn to_chars(s: &str) -> (out: Vec<char>)
    ensures
        out@ == s@,
{
    let mut out: Vec<char> = Vec::new();
    for c in it: s.chars()
        invariant
            it.seq() == s@,
            out@ =~= s@.take(it.index() as int),
    {
        out.push(c);
    }
    out
}

/// Whether two strings hold the same characters.
pub fn same_text(a: &str, b: &str) -> (r: bool)
    ensures
        r == (a@ == b@),
{
    let x = to_chars(a);
    let y = to_chars(b);
    if x.len() != y.len() {
        return false;
    }
    let mut i: usize = 0;
    while i < x.len()
        invariant
            i <= x.len(),
            x.len() == y.len(),
            x@ == a@,
            y@ == b@,
            forall|k: int| 0 <= k < i ==> x@[k] == y@[k],
        decreases x.len() - i,
    {
        if x[i] != y[i] {
            assert(x@[i as int] != y@[i as int]);
            return false;
        }
        i += 1;
    }
    assert(x@ =~= y@);
    true
}

/// Splits a line into its tokens. Each is a word: not empty, and free of
/// separators.
pub fn split_whitespace(line: &str) -> (parts: Vec<String>)
    ensures
        texts(parts@) == tokens(line@),
        all_words(texts(parts@)),
{
    let chars = to_chars(line);
    let n = chars.len();
    let mut parts: Vec<String> = Vec::new();
    let mut i: usize = 0;
    assert(line@.skip(0) =~= line@);
    assert(texts(parts@) =~= Seq::<Seq<char>>::empty());
    while i < n
        invariant
            i <= n,
            n == chars.len(),
            chars@ == line@,
            texts(parts@) + tokens(line@.skip(i as int)) == tokens(line@),
        decreases n - i,
    {
        let ghost rest = line@.skip(i as int);
        if is_whitespace(chars[i]) {
            assert(rest.skip(1) =~= line@.skip(i + 1));
            i += 1;
        } else {
            let start = i;
            proof {
                lemma_word_len(rest);
            }
            while i < n && !is_whitespace(chars[i])
                invariant
                    start <= i <= n,
                    n == chars.len(),
                    chars@ == line@,
                    rest == line@.skip(start as int),
                    i - start <= word_len(rest),
                    word_len(rest) <= rest.len(),
                    word_len(rest) < rest.len() ==> is_space(rest[word_len(rest) as int]),
                    forall|k: int| 0 <= k < word_len(rest) ==> !is_space(#[trigger] rest[k]),
                decreases n - i,
            {
                assert(rest[i - start] == line@[i as int]);
                i += 1;
            }
            proof {
                if i < n {
                    assert(rest[i - start] == line@[i as int]);
                }
                assert(i - start == word_len(rest));
                assert(rest.take(i - start) =~= line@.subrange(start as int, i as int));
                assert(rest.skip(i - start) =~= line@.skip(i as int));
            }
            let ghost before = texts(parts@);
            let word = String::from_str(line.substring_char(start, i));
            parts.push(word);
            assert(texts(parts@) =~= before + seq![rest.take(i - start)]);
            assert(tokens(rest) == seq![rest.take(i - start)] + tokens(line@.skip(i as int)));
            assert(texts(parts@) + tokens(line@.skip(i as int)) =~= before + tokens(rest));
        }
    }
    assert(line@.skip(n as int) =~= Seq::<char>::empty());
    assert(texts(parts@) + Seq::<Seq<char>>::empty() =~= texts(parts@));
    proof {
        lemma_tokens_are_words(line@);
    }
    parts
}

/// Joins words with one blank between neighbours.
pub fn join_words(words: &Vec<String>) -> (out: String)
    ensures
        out@ == spaced(texts(words@)),
{
    let mut out = String::new();
    let n = words.len();
    if n == 0 {
        return out;
    }
    let ghost ws = texts(words@);
    out.append(words[0].as_str());
    assert(out@ =~= ws[0]);
    let mut i: usize = 1;
    while i < n
        invariant
            1 <= i <= n,
            n == words.len(),
            ws == texts(words@),
            out@ + led(ws.skip(i as int)) == spaced(ws),
        decreases n - i,
    {
        let ghost before = out@;
        proof {
            reveal_strlit(" ");
            assert(" "@ =~= seq![' ']);
            assert(ws.skip(i as int).skip(1) =~= ws.skip(i + 1));
            assert(ws.skip(i as int)[0] == ws[i as int]);
        }
        out.append(" ");
        out.append(words[i].as_str());
        assert(out@ + led(ws.skip(i + 1)) =~= before + led(ws.skip(i as int)));
        i += 1;
    }
    assert(ws.skip(n as int) =~= Seq::<Seq<char>>::empty());
    assert(out@ + Seq::<char>::empty() =~= out@);
    out
}

} // verus!
