//! Building and reading text: the few operations on strings that the rest of
//! the library relies on.

use vstd::prelude::*;

verus! {

/// `String::push` of the standard library, which appends one character to the
/// end of a string. Taken on trust: the string afterwards is the string
/// before with the character added at its end.
pub assume_specification[ String::push ](s: &mut String, c: char)
    ensures
        final(s)@ == old(s)@.push(c),
;

/// The character that stands for a digit below ten.
pub open spec fn digit_char(d: int) -> char {
    if d == 0 {
        '0'
    } else if d == 1 {
        '1'
    } else if d == 2 {
        '2'
    } else if d == 3 {
        '3'
    } else if d == 4 {
        '4'
    } else if d == 5 {
        '5'
    } else if d == 6 {
        '6'
    } else if d == 7 {
        '7'
    } else if d == 8 {
        '8'
    } else {
        '9'
    }
}

/// A number written in decimal, without leading zeros.
pub open spec fn decimal(n: nat) -> Seq<char>
    decreases n,
{
    if n < 10 {
        seq![digit_char(n as int)]
    } else {
        decimal(n / 10).push(digit_char((n % 10) as int))
    }
}

/// The character that stands for a digit below ten.
pub fn digit(d: usize) -> (c: char)
    requires
        d < 10,
    ensures
        c == digit_char(d as int),
{
    match d {
        0 => '0',
        1 => '1',
        2 => '2',
        3 => '3',
        4 => '4',
        5 => '5',
        6 => '6',
        7 => '7',
        8 => '8',
        _ => '9',
    }
}

/// Appends a number in decimal to a string.
pub fn push_decimal(s: &mut String, n: usize)
    ensures
        final(s)@ == old(s)@ + decimal(n as nat),
    decreases n,
{
    if n >= 10 {
        push_decimal(s, n / 10);
    }
    s.push(digit(n % 10));
}

/// The white space of ASCII: space, tab, line feed, form feed and carriage
/// return.
pub open spec fn is_space(c: char) -> bool {
    c == ' ' || c == '\t' || c == '\n' || c == '\x0C' || c == '\r'
}

/// The word that has been gathered, if it has any character.
pub open spec fn pending_word(word: Seq<char>) -> Seq<Seq<char>> {
    if word.len() == 0 {
        Seq::empty()
    } else {
        seq![word]
    }
}

/// The words of a text: its longest stretches without white space, in order.
/// `word` holds the characters of a word that began before `s`.
pub open spec fn words_after(s: Seq<char>, word: Seq<char>) -> Seq<Seq<char>>
    decreases s.len(),
{
    if s.len() == 0 {
        pending_word(word)
    } else if is_space(s[0]) {
        pending_word(word) + words_after(s.drop_first(), Seq::empty())
    } else {
        words_after(s.drop_first(), word.push(s[0]))
    }
}

/// The words of a text: its longest stretches without white space, in order.
pub open spec fn words(s: Seq<char>) -> Seq<Seq<char>> {
    words_after(s, Seq::empty())
}

/// The character sequences that the vectors of a vector stand for, such as
/// the words or the lines of a text.
pub open spec fn texts_of(v: Seq<Vec<char>>) -> Seq<Seq<char>> {
    v.map_values(|w: Vec<char>| w@)
}

/// Words put together with one separator between each two.
pub open spec fn joined(parts: Seq<Seq<char>>, sep: char) -> Seq<char>
    decreases parts.len(),
{
    if parts.len() == 0 {
        Seq::empty()
    } else if parts.len() == 1 {
        parts[0]
    } else {
        joined(parts.drop_last(), sep).push(sep) + parts.last()
    }
}

/// Whether a text holds no white space.
pub open spec fn is_solid(w: Seq<char>) -> bool {
    forall|j: int| 0 <= j < w.len() ==> !is_space(#[trigger] w[j])
}

/// Every word of a text has at least one character, and none of them is
/// white space.
pub proof fn lemma_words_solid(s: Seq<char>)
    ensures
        forall|i: int|
            0 <= i < words(s).len() ==> {
                &&& (#[trigger] words(s)[i]).len() > 0
                &&& is_solid(words(s)[i])
            },
{
    lemma_words_after_solid(s, Seq::empty());
}

/// The words that come after a solid beginning are solid and not empty.
proof fn lemma_words_after_solid(s: Seq<char>, word: Seq<char>)
    requires
        is_solid(word),
    ensures
        forall|i: int|
            0 <= i < words_after(s, word).len() ==> {
                &&& (#[trigger] words_after(s, word)[i]).len() > 0
                &&& is_solid(words_after(s, word)[i])
            },
    decreases s.len(),
{
    let all = words_after(s, word);
    if s.len() == 0 {
        assert forall|i: int| 0 <= i < all.len() implies (#[trigger] all[i]).len() > 0
            && is_solid(all[i]) by {
            assert(all[i] == word);
        }
    } else if is_space(s[0]) {
        let head = pending_word(word);
        let rest = words_after(s.drop_first(), Seq::empty());
        lemma_words_after_solid(s.drop_first(), Seq::empty());
        assert(all == head + rest);
        assert forall|i: int| 0 <= i < all.len() implies (#[trigger] all[i]).len() > 0
            && is_solid(all[i]) by {
            if i < head.len() {
                assert(all[i] == word);
            } else {
                assert(all[i] == rest[i - head.len()]);
            }
        }
    } else {
        let longer = word.push(s[0]);
        assert forall|j: int| 0 <= j < longer.len() implies !is_space(#[trigger] longer[j]) by {
            if j < word.len() {
                assert(longer[j] == word[j]);
            }
        }
        lemma_words_after_solid(s.drop_first(), longer);
        let same = words_after(s.drop_first(), longer);
        assert(all == same);
        assert forall|i: int| 0 <= i < all.len() implies (#[trigger] all[i]).len() > 0
            && is_solid(all[i]) by {
            assert(same[i].len() > 0 && is_solid(same[i]));
        }
    }
}

/// Whether a character is ASCII white space.
pub fn is_ascii_space(c: char) -> (b: bool)
    ensures
        b == is_space(c),
{
    c == ' ' || c == '\t' || c == '\n' || c == '\x0C' || c == '\r'
}

/// Splits a text into its words: the longest stretches without ASCII white
/// space. No word is empty.
pub fn split_words(chars: &Vec<char>) -> (out: Vec<Vec<char>>)
    ensures
        texts_of(out@) == words(chars@),
        forall|i: int| 0 <= i < out.len() ==> (#[trigger] out[i]).len() > 0,
{
    let mut out: Vec<Vec<char>> = Vec::new();
    let mut word: Vec<char> = Vec::new();
    assert(texts_of(out@) =~= Seq::empty());
    assert(chars@.skip(0) =~= chars@);
    for i in 0..chars.len()
        invariant
            texts_of(out@) + words_after(chars@.skip(i as int), word@) == words(chars@),
            forall|j: int| 0 <= j < out.len() ==> (#[trigger] out[j]).len() > 0,
    {
        let ghost rest = chars@.skip(i as int);
        assert(rest.drop_first() =~= chars@.skip(i + 1));
        let c = chars[i];
        if is_ascii_space(c) {
            let ghost before = texts_of(out@);
            let ghost gathered = word@;
            assert(words_after(rest, gathered) == pending_word(gathered) + words_after(
                chars@.skip(i + 1),
                Seq::empty(),
            ));
            if word.len() > 0 {
                out.push(word);
                word = Vec::new();
            }
            assert(texts_of(out@) =~= before + pending_word(gathered));
            assert(word@ =~= Seq::<char>::empty());
            assert(texts_of(out@) + words_after(chars@.skip(i + 1), word@) =~= before
                + words_after(rest, gathered));
        } else {
            word.push(c);
        }
    }
    if word.len() > 0 {
        let ghost before = texts_of(out@);
        out.push(word);
        assert(texts_of(out@) =~= before + pending_word(word@));
    }
    assert(texts_of(out@) =~= words(chars@));
    out
}

/// The string made of the given characters.
pub fn string_of(chars: &Vec<char>) -> (s: String)
    ensures
        s@ == chars@,
{
    let mut s = String::new();
    for i in 0..chars.len()
        invariant
            s@ == chars@.take(i as int),
    {
        s.push(chars[i]);
        assert(chars@.take(i + 1) =~= chars@.take(i as int).push(chars@[i as int]));
    }
    assert(chars@.take(chars.len() as int) =~= chars@);
    s
}

/// Whether a text begins with the given characters.
pub open spec fn is_prefix(prefix: Seq<char>, s: Seq<char>) -> bool {
    prefix.len() <= s.len() && s.take(prefix.len() as int) == prefix
}

/// Whether a text begins with the given characters.
pub fn starts_with(chars: &Vec<char>, prefix: &Vec<char>) -> (b: bool)
    ensures
        b == is_prefix(prefix@, chars@),
{
    if prefix.len() > chars.len() {
        return false;
    }
    for i in 0..prefix.len()
        invariant
            prefix.len() <= chars.len(),
            forall|j: int| 0 <= j < i ==> chars[j] == prefix[j],
    {
        if chars[i] != prefix[i] {
            assert(chars@.take(prefix.len() as int)[i as int] != prefix@[i as int]);
            return false;
        }
    }
    assert(chars@.take(prefix.len() as int) =~= prefix@);
    true
}

/// The characters of a string, in order.
pub fn chars_of(s: &str) -> (v: Vec<char>)
    ensures
        v@ == s@,
{
    let mut v: Vec<char> = Vec::new();
    for c in it: s.chars()
        invariant
            v@ == it.seq().take(it.index()),
    {
        v.push(c);
    }
    v
}

} // verus!
