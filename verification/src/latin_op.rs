//! Pig Latin: a word that starts with a vowel gets `-hay` at its end; any
//! other word has its first character moved to the end, after a hyphen, and
//! `ay` added.

use crate::text::{lemma_words_are_words, split_whitespace, texts, words};
use vstd::prelude::*;
use vstd::string::*;

verus! {

/// Whether `c` is one of the five vowels, in lower case.
pub open spec fn is_vowel(c: char) -> bool {
    c == 'a' || c == 'e' || c == 'i' || c == 'o' || c == 'u'
}

/// The Pig Latin form of one word. The empty word stays empty.
pub open spec fn pig_latin(word: Seq<char>) -> Seq<char> {
    if word.len() == 0 {
        Seq::empty()
    } else if is_vowel(word[0]) {
        word + seq!['-', 'h', 'a', 'y']
    } else {
        word.skip(1) + seq!['-', word[0], 'a', 'y']
    }
}

/// `next` put after `current`, with a space between the two unless
/// `current` is empty.
pub open spec fn appended(current: Seq<char>, next: Seq<char>) -> Seq<char> {
    if current.len() == 0 {
        next
    } else {
        current + seq![' '] + next
    }
}

/// The parts in order, with one space between each two.
pub open spec fn spaced(parts: Seq<Seq<char>>) -> Seq<char>
    decreases parts.len(),
{
    if parts.len() == 0 {
        Seq::empty()
    } else if parts.len() == 1 {
        parts[0]
    } else {
        spaced(parts.drop_last()) + seq![' '] + parts.last()
    }
}

/// The parts in order, with one space after each.
pub open spec fn each_followed_by_space(parts: Seq<Seq<char>>) -> Seq<char>
    decreases parts.len(),
{
    if parts.len() == 0 {
        Seq::empty()
    } else {
        each_followed_by_space(parts.drop_last()) + parts.last() + seq![' ']
    }
}

/// The Pig Latin forms of the words of `text`, in order.
pub open spec fn pig_latin_words(text: Seq<char>) -> Seq<Seq<char>> {
    words(text).map_values(|w: Seq<char>| pig_latin(w))
}

/// The Pig Latin form of a word that is not empty is at least four
/// characters long.
pub proof fn lemma_pig_latin_len(word: Seq<char>)
    requires
        word.len() > 0,
    ensures
        pig_latin(word).len() == word.len() + 4 || pig_latin(word).len() == word.len() + 3,
        pig_latin(word).len() >= 4,
{
}

/// Adding a part to parts of which none is empty puts it after a space,
/// unless it is the first.
pub proof fn lemma_spaced_push(parts: Seq<Seq<char>>, next: Seq<char>)
    requires
        forall|i: int| 0 <= i < parts.len() ==> (#[trigger] parts[i]).len() > 0,
    ensures
        spaced(parts.push(next)) == appended(spaced(parts), next),
        parts.len() > 0 ==> spaced(parts).len() > 0,
{
    assert(parts.push(next).drop_last() =~= parts);
}

/// Parts of which none is empty, each followed by a space, are the same
/// parts with a space between each two, and one more space at the end.
pub proof fn lemma_each_followed_by_space(parts: Seq<Seq<char>>)
    requires
        parts.len() > 0,
        forall|i: int| 0 <= i < parts.len() ==> (#[trigger] parts[i]).len() > 0,
    ensures
        each_followed_by_space(parts) == spaced(parts) + seq![' '],
    decreases parts.len(),
{
    if parts.len() == 1 {
        assert(each_followed_by_space(parts.drop_last()) =~= Seq::<char>::empty());
    } else {
        let shorter = parts.drop_last();
        assert forall|i: int| 0 <= i < shorter.len() implies (#[trigger] shorter[i]).len() > 0 by {
            assert(shorter[i] == parts[i]);
        }
        lemma_each_followed_by_space(shorter);
    }
}

/// Of a text that holds a word, the form with a space after each word is
/// the form with a space between each two, and one more space at the end.
/// Of a text that holds none, both forms are empty.
pub proof fn lemma_pigify_bk_is_pigify_and_space(text: Seq<char>)
    ensures
        words(text).len() > 0 ==> each_followed_by_space(pig_latin_words(text)) == spaced(
            pig_latin_words(text),
        ) + seq![' '],
        words(text).len() == 0 ==> each_followed_by_space(pig_latin_words(text)).len() == 0
            && spaced(pig_latin_words(text)).len() == 0,
{
    let forms = pig_latin_words(text);
    if words(text).len() > 0 {
        lemma_words_are_words(text);
        assert forall|i: int| 0 <= i < forms.len() implies (#[trigger] forms[i]).len() > 0 by {
            lemma_pig_latin_len(words(text)[i]);
        }
        lemma_each_followed_by_space(forms);
    }
}

/// The Pig Latin form of one word: `apple` gives `apple-hay`, `first`
/// gives `irst-fay`, and the empty word gives the empty word.
pub fn pigify_one(word: &str) -> (r: String)
    ensures
        r@ == pig_latin(word@),
{
    let n = word.unicode_len();
    if n == 0 {
        return String::new();
    }
    let first_char = word.get_char(0);
    proof {
        reveal_strlit("-hay");
        reveal_strlit("-");
        reveal_strlit("ay");
    }
    match first_char {
        'a' | 'e' | 'i' | 'o' | 'u' => {
            let mut r = String::from_str(word);
            r.append("-hay");
            r
        },
        _ => {
            let mut r = String::from_str(word.substring_char(1, n));
            r.append("-");
            r.append(word.substring_char(0, 1));
            r.append("ay");
            r
        },
    }
}

/// Puts `next` after `current`, with a space between the two unless
/// `current` is empty.
pub fn folder(current: String, next: String) -> (r: String)
    ensures
        r@ == appended(current@, next@),
{
    let mut r = current;
    proof {
        reveal_strlit(" ");
    }
    if !r.as_str().is_empty() {
        r.append(" ");
    }
    r.append(next.as_str());
    r
}

/// The Pig Latin form of a text: the forms of its words, with one space
/// between each two. White space at either end of the text is dropped, and
/// any white space between two words becomes one space.
pub fn pigify(text: &str) -> (r: String)
    ensures
        r@ == spaced(pig_latin_words(text@)),
{
    let parts = split_whitespace(text);
    let mut r = String::new();
    for i in 0..parts.len()
        invariant
            texts(parts@) == words(text@),
            r@ == spaced(pig_latin_words(text@).take(i as int)),
    {
        let next = pigify_one(parts[i]);
        proof {
            let forms = pig_latin_words(text@);
            assert(forms.take(i + 1) =~= forms.take(i as int).push(next@));
            lemma_words_are_words(text@);
            assert forall|j: int| 0 <= j < i implies (#[trigger] forms.take(i as int)[j]).len()
                > 0 by {
                lemma_pig_latin_len(words(text@)[j]);
            }
            lemma_spaced_push(forms.take(i as int), next@);
        }
        r = folder(r, next);
    }
    proof {
        let forms = pig_latin_words(text@);
        assert(forms.take(parts@.len() as int) =~= forms);
    }
    r
}

/// The Pig Latin forms of the words of a text, with one space after each,
/// the last one too.
pub fn pigify_bk(text: &str) -> (rs: String)
    ensures
        rs@ == each_followed_by_space(pig_latin_words(text@)),
{
    let parts = split_whitespace(text);
    let mut rs = String::new();
    proof {
        reveal_strlit(" ");
    }
    for i in 0..parts.len()
        invariant
            texts(parts@) == words(text@),
            " "@ == seq![' '],
            rs@ == each_followed_by_space(pig_latin_words(text@).take(i as int)),
    {
        let vv = pigify_one(parts[i]);
        proof {
            let forms = pig_latin_words(text@);
            assert(forms.take(i + 1).drop_last() =~= forms.take(i as int));
        }
        rs.append(vv.as_str());
        rs.append(" ");
    }
    proof {
        let forms = pig_latin_words(text@);
        assert(forms.take(parts@.len() as int) =~= forms);
    }
    rs
}

} // verus!
