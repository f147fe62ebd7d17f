//! White space and words: what counts as white space, and how a text falls
//! into the words that white space separates.

use vstd::prelude::*;
use vstd::string::*;

verus! {

/// Whether `c` is white space: the characters that Unicode gives the
/// property `White_Space`.
pub open spec fn is_whitespace(c: char) -> bool {
    let u = c as u32;
    ||| 0x09 <= u <= 0x0D
    ||| u == 0x20
    ||| u == 0x85
    ||| u == 0xA0
    ||| u == 0x1680
    ||| 0x2000 <= u <= 0x200A
    ||| u == 0x2028
    ||| u == 0x2029
    ||| u == 0x202F
    ||| u == 0x205F
    ||| u == 0x3000
}

/// Whether `c` is white space.
pub fn is_whitespace_char(c: char) -> (b: bool)
    ensures
        b == is_whitespace(c),
{
    let u = c as u32;
    (0x09 <= u && u <= 0x0D) || u == 0x20 || u == 0x85 || u == 0xA0 || u == 0x1680 || (0x2000 <= u
        && u <= 0x200A) || u == 0x2028 || u == 0x2029 || u == 0x202F || u == 0x205F || u == 0x3000
}

/// No character of `s` is white space.
pub open spec fn has_no_whitespace(s: Seq<char>) -> bool {
    forall|i: int| 0 <= i < s.len() ==> !is_whitespace(#[trigger] s[i])
}

/// The number of characters of `s` before its first white space, or its
/// length if it has none.
pub open spec fn word_len(s: Seq<char>) -> nat
    decreases s.len(),
{
    if s.len() == 0 || is_whitespace(s[0]) {
        0
    } else {
        1 + word_len(s.skip(1))
    }
}

/// The words of `s`, in order: the longest runs of characters that hold no
/// white space.
pub open spec fn words(s: Seq<char>) -> Seq<Seq<char>>
    decreases s.len(),
    via words_decreases
{
    if s.len() == 0 {
        Seq::empty()
    } else if is_whitespace(s[0]) {
        words(s.skip(1))
    } else {
        let n = word_len(s) as int;
        seq![s.take(n)] + words(s.skip(n))
    }
}

#[via_fn]
proof fn words_decreases(s: Seq<char>) {
    lemma_word_len_bounded(s);
}

/// A word is no longer than the text it starts, and not empty where the
/// text starts with a character that is no white space.
pub proof fn lemma_word_len_bounded(s: Seq<char>)
    ensures
        word_len(s) <= s.len(),
        s.len() > 0 && !is_whitespace(s[0]) ==> word_len(s) > 0,
    decreases s.len(),
{
    if s.len() > 0 && !is_whitespace(s[0]) {
        lemma_word_len_bounded(s.skip(1));
    }
}

/// Where the first `n` characters of `s` hold no white space and the text
/// ends or goes on with white space after them, the first word is `n` long.
pub proof fn lemma_word_len_of_run(s: Seq<char>, n: int)
    requires
        0 <= n <= s.len(),
        has_no_whitespace(s.take(n)),
        n == s.len() || is_whitespace(s[n]),
    ensures
        word_len(s) == n,
    decreases n,
{
    if n > 0 {
        assert(s.take(n)[0] == s[0]);
        assert forall|i: int| 0 <= i < n - 1 implies !is_whitespace(
            #[trigger] s.skip(1).take(n - 1)[i],
        ) by {
            assert(s.skip(1).take(n - 1)[i] == s.take(n)[i + 1]);
        }
        lemma_word_len_of_run(s.skip(1), n - 1);
    }
}

/// Every word of a text holds at least one character and no white space.
pub proof fn lemma_words_are_words(s: Seq<char>)
    ensures
        forall|i: int|
            0 <= i < words(s).len() ==> (#[trigger] words(s)[i]).len() > 0 && has_no_whitespace(
                words(s)[i],
            ),
    decreases s.len(),
{
    if s.len() > 0 && is_whitespace(s[0]) {
        lemma_words_are_words(s.skip(1));
        assert(words(s) == words(s.skip(1)));
    } else if s.len() > 0 {
        let n = word_len(s) as int;
        lemma_word_len_bounded(s);
        lemma_word_len_has_no_whitespace(s);
        lemma_words_are_words(s.skip(n));
        assert(words(s) == seq![s.take(n)] + words(s.skip(n)));
    }
}

/// The first word of a text holds no white space.
pub proof fn lemma_word_len_has_no_whitespace(s: Seq<char>)
    ensures
        has_no_whitespace(s.take(word_len(s) as int)),
    decreases s.len(),
{
    lemma_word_len_bounded(s);
    if s.len() > 0 && !is_whitespace(s[0]) {
        lemma_word_len_has_no_whitespace(s.skip(1));
        lemma_word_len_bounded(s.skip(1));
        let n = word_len(s) as int;
        assert forall|i: int| 0 <= i < n implies !is_whitespace(#[trigger] s.take(n)[i]) by {
            if i > 0 {
                assert(s.take(n)[i] == s.skip(1).take(n - 1)[i - 1]);
            }
        }
    }
}

/// The texts of a list of string slices.
pub open spec fn texts(parts: Seq<&str>) -> Seq<Seq<char>> {
    parts.map_values(|w: &str| w@)
}

/// The words of a text that starts with a word of `n` characters, after
/// which it ends or goes on with white space: that word, then the words of
/// the rest.
pub proof fn lemma_words_after_run(s: Seq<char>, n: int)
    requires
        0 < n <= s.len(),
        has_no_whitespace(s.take(n)),
        n == s.len() || is_whitespace(s[n]),
    ensures
        words(s) == seq![s.take(n)] + words(s.skip(n)),
{
    lemma_word_len_of_run(s, n);
}

/// Splits `text` at white space: the words of the text, in order. Neither
/// white space nor an empty word is among them.
pub fn split_whitespace<'a>(text: &'a str) -> (parts: Vec<&'a str>)
    ensures
        texts(parts@) == words(text@),
{
    let n = text.unicode_len();
    let mut parts: Vec<&'a str> = Vec::new();
    let mut start: usize = 0;
    let mut i: usize = 0;
    proof {
        assert(text@.skip(0) =~= text@);
    }
    for c in it: text.chars()
        invariant
            it.seq() == text@,
            i == it.index(),
            n == text@.len(),
            start <= i <= n,
            has_no_whitespace(text@.subrange(start as int, i as int)),
            texts(parts@) + words(text@.skip(start as int)) == words(text@),
    {
        if is_whitespace_char(c) {
            let ghost rest = text@.skip(start as int);
            let ghost after = text@.skip(i + 1);
            proof {
                assert(text@.skip(i as int).skip(1) =~= after);
            }
            if start < i {
                let word = text.substring_char(start, i);
                proof {
                    assert(rest.take(i - start) =~= text@.subrange(start as int, i as int));
                    assert(rest.skip(i - start) =~= text@.skip(i as int));
                    lemma_words_after_run(rest, i - start);
                }
                parts.push(word);
            }
            start = i + 1;
        } else {
            assert forall|k: int| 0 <= k < i + 1 - start implies !is_whitespace(
                #[trigger] text@.subrange(start as int, i + 1)[k],
            ) by {
                if k < i - start {
                    assert(text@.subrange(start as int, i + 1)[k] == text@.subrange(
                        start as int,
                        i as int,
                    )[k]);
                }
            }
        }
        i += 1;
    }
    let ghost rest = text@.skip(start as int);
    if start < n {
        let word = text.substring_char(start, n);
        proof {
            assert(rest.take(n - start) =~= text@.subrange(start as int, n as int));
            lemma_words_after_run(rest, n - start);
        }
        parts.push(word);
    }
    parts
}

/// How many characters at the start of `s` are white space.
pub open spec fn leading_whitespace(s: Seq<char>) -> nat
    decreases s.len(),
{
    if s.len() == 0 || !is_whitespace(s[0]) {
        0
    } else {
        1 + leading_whitespace(s.skip(1))
    }
}

/// How many characters at the end of `s` are white space.
pub open spec fn trailing_whitespace(s: Seq<char>) -> nat
    decreases s.len(),
{
    if s.len() == 0 || !is_whitespace(s.last()) {
        0
    } else {
        1 + trailing_whitespace(s.drop_last())
    }
}

/// `s` without the white space at its start and at its end.
pub open spec fn trimmed(s: Seq<char>) -> Seq<char> {
    let rest = s.skip(leading_whitespace(s) as int);
    rest.take(rest.len() - trailing_whitespace(rest))
}

/// Every character of `s` is white space.
pub open spec fn is_all_whitespace(s: Seq<char>) -> bool {
    forall|i: int| 0 <= i < s.len() ==> is_whitespace(#[trigger] s[i])
}

/// Where the first `n` characters of `s` are white space and the text ends
/// or goes on with another character after them, `n` is the white space
/// that leads `s`.
pub proof fn lemma_leading_whitespace_of_run(s: Seq<char>, n: int)
    requires
        0 <= n <= s.len(),
        is_all_whitespace(s.take(n)),
        n == s.len() || !is_whitespace(s[n]),
    ensures
        leading_whitespace(s) == n,
    decreases n,
{
    if n > 0 {
        assert(s.take(n)[0] == s[0]);
        assert forall|i: int| 0 <= i < n - 1 implies is_whitespace(
            #[trigger] s.skip(1).take(n - 1)[i],
        ) by {
            assert(s.skip(1).take(n - 1)[i] == s.take(n)[i + 1]);
        }
        lemma_leading_whitespace_of_run(s.skip(1), n - 1);
    }
}

/// Where the last `n` characters of `s` are white space and the text
/// starts there or has another character before them, `n` is the white
/// space that trails `s`.
pub proof fn lemma_trailing_whitespace_of_run(s: Seq<char>, n: int)
    requires
        0 <= n <= s.len(),
        is_all_whitespace(s.skip(s.len() - n)),
        n == s.len() || !is_whitespace(s[s.len() - n - 1]),
    ensures
        trailing_whitespace(s) == n,
    decreases n,
{
    if n > 0 {
        assert(s.skip(s.len() - n)[n - 1] == s.last());
        let shorter = s.drop_last();
        assert forall|i: int| 0 <= i < n - 1 implies is_whitespace(
            #[trigger] shorter.skip(shorter.len() - (n - 1))[i],
        ) by {
            assert(shorter.skip(shorter.len() - (n - 1))[i] == s.skip(s.len() - n)[i]);
        }
        lemma_trailing_whitespace_of_run(shorter, n - 1);
    }
}

/// The white space that leads `s` is white space, and what comes after it,
/// if anything, is not.
pub proof fn lemma_leading_whitespace(s: Seq<char>)
    ensures
        leading_whitespace(s) <= s.len(),
        is_all_whitespace(s.take(leading_whitespace(s) as int)),
        leading_whitespace(s) < s.len() ==> !is_whitespace(s[leading_whitespace(s) as int]),
    decreases s.len(),
{
    if s.len() > 0 && is_whitespace(s[0]) {
        let rest = s.skip(1);
        lemma_leading_whitespace(rest);
        let n = leading_whitespace(s) as int;
        assert forall|i: int| 0 <= i < n implies is_whitespace(#[trigger] s.take(n)[i]) by {
            if i > 0 {
                assert(s.take(n)[i] == rest.take(n - 1)[i - 1]);
            }
        }
    }
}

/// The white space that trails `s` is white space, and what comes before
/// it, if anything, is not.
pub proof fn lemma_trailing_whitespace(s: Seq<char>)
    ensures
        trailing_whitespace(s) <= s.len(),
        is_all_whitespace(s.skip(s.len() - trailing_whitespace(s))),
        trailing_whitespace(s) < s.len() ==> !is_whitespace(
            s[s.len() - trailing_whitespace(s) - 1],
        ),
    decreases s.len(),
{
    if s.len() > 0 && is_whitespace(s.last()) {
        let shorter = s.drop_last();
        lemma_trailing_whitespace(shorter);
        let n = trailing_whitespace(s) as int;
        assert forall|i: int| 0 <= i < n implies is_whitespace(
            #[trigger] s.skip(s.len() - n)[i],
        ) by {
            if i < n - 1 {
                assert(s.skip(s.len() - n)[i] == shorter.skip(shorter.len() - (n - 1))[i]);
            }
        }
    }
}

/// What is left of a text after trimming neither starts nor ends with white
/// space, and trimming it again changes nothing.
pub proof fn lemma_trimmed(s: Seq<char>)
    ensures
        trimmed(s).len() > 0 ==> !is_whitespace(trimmed(s).first()) && !is_whitespace(
            trimmed(s).last(),
        ),
        trimmed(trimmed(s)) == trimmed(s),
{
    lemma_leading_whitespace(s);
    let rest = s.skip(leading_whitespace(s) as int);
    lemma_trailing_whitespace(rest);
    let t = trimmed(s);
    if t.len() > 0 {
        lemma_leading_whitespace_of_run(t, 0);
        lemma_trailing_whitespace_of_run(t, 0);
    }
}

/// The part of `text` between the white space at its start and the white
/// space at its end; the empty text where there is nothing else.
pub fn trim<'a>(text: &'a str) -> (r: &'a str)
    ensures
        r@ == trimmed(text@),
{
    let n = text.unicode_len();
    let mut found = false;
    let mut first: usize = 0;
    let mut end: usize = 0;
    let mut i: usize = 0;
    for c in it: text.chars()
        invariant
            it.seq() == text@,
            i == it.index(),
            n == text@.len(),
            i <= n,
            !found ==> first == 0 && end == 0 && is_all_whitespace(text@.subrange(0, i as int)),
            found ==> first < end <= i && is_all_whitespace(text@.subrange(0, first as int))
                && !is_whitespace(text@[first as int]) && !is_whitespace(text@[end - 1])
                && is_all_whitespace(text@.subrange(end as int, i as int)),
    {
        if is_whitespace_char(c) {
            let ghost from = if found {
                end as int
            } else {
                0
            };
            assert forall|k: int| 0 <= k < i + 1 - from implies is_whitespace(
                #[trigger] text@.subrange(from, i + 1)[k],
            ) by {}
        } else {
            if !found {
                first = i;
                found = true;
            }
            end = i + 1;
        }
        i += 1;
    }
    proof {
        if found {
            lemma_leading_whitespace_of_run(text@, first as int);
            let rest = text@.skip(first as int);
            assert(rest.skip(rest.len() - (n - end)) =~= text@.subrange(end as int, n as int));
            lemma_trailing_whitespace_of_run(rest, n - end);
        } else {
            lemma_leading_whitespace_of_run(text@, n as int);
        }
    }
    text.substring_char(first, end)
}

} // verus!
