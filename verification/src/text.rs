//! Text as sequences of characters: trimming, searching, letter case and words.

use vstd::prelude::*;

verus! {

/// Appends one character to a string, as `String::push` documents it.
pub assume_specification[ String::push ](s: &mut String, ch: char)
    ensures
        final(s)@ == old(s)@.push(ch),
;

/// The characters with the Unicode property White_Space.
pub open spec fn is_white_space(c: char) -> bool {
    ||| '\u{9}' <= c <= '\u{d}'
    ||| c == ' '
    ||| c == '\u{85}'
    ||| c == '\u{a0}'
    ||| c == '\u{1680}'
    ||| '\u{2000}' <= c <= '\u{200a}'
    ||| c == '\u{2028}'
    ||| c == '\u{2029}'
    ||| c == '\u{202f}'
    ||| c == '\u{205f}'
    ||| c == '\u{3000}'
}

/// Whether a character has the Unicode property White_Space.
pub fn white_space(c: char) -> (r: bool)
    ensures
        r == is_white_space(c),
{
    ('\u{9}' <= c && c <= '\u{d}') || c == ' ' || c == '\u{85}' || c == '\u{a0}' || c == '\u{1680}'
        || ('\u{2000}' <= c && c <= '\u{200a}') || c == '\u{2028}' || c == '\u{2029}' || c
        == '\u{202f}' || c == '\u{205f}' || c == '\u{3000}'
}

/// The characters of a string.
pub fn to_chars(s: &str) -> (r: Vec<char>)
    ensures
        r@ == s@,
{
    let mut r: Vec<char> = Vec::new();
    for c in it: s.chars()
        invariant
            r@ == it.seq().take(it.index()),
            it.seq() == s@,
    {
        r.push(c);
    }
    r
}

/// The string with the given characters.
pub fn from_chars(chars: &[char]) -> (r: String)
    ensures
        r@ == chars@,
{
    let mut r = String::new();
    let mut i: usize = 0;
    while i < chars.len()
        invariant
            i <= chars@.len(),
            r@ == chars@.take(i as int),
        decreases chars@.len() - i,
    {
        r.push(chars[i]);
        i += 1;
        assert(chars@.take(i as int) == chars@.take(i - 1).push(chars@[i - 1]));
    }
    assert(chars@.take(i as int) == chars@);
    r
}

/// Whether two texts are the same.
pub fn same_text(a: &str, b: &str) -> (r: bool)
    ensures
        r == (a@ == b@),
{
    let x = to_chars(a);
    let y = to_chars(b);
    if x.len() != y.len() {
        return false;
    }
    let mut i: usize = 0;
    while i < x.len()
        invariant
            i <= x@.len(),
            x@.len() == y@.len(),
            x@ == a@,
            y@ == b@,
            forall|j: int| 0 <= j < i ==> x@[j] == y@[j],
        decreases x@.len() - i,
    {
        if x[i] != y[i] {
            return false;
        }
        i += 1;
    }
    assert(x@ =~= y@);
    true
}

/// Whether a text starts with the given characters.
pub fn starts_with(s: &str, prefix: &str) -> (r: bool)
    ensures
        r == prefix@.is_prefix_of(s@),
{
    let x = to_chars(s);
    let y = to_chars(prefix);
    if y.len() > x.len() {
        return false;
    }
    let mut i: usize = 0;
    while i < y.len()
        invariant
            i <= y@.len() <= x@.len(),
            x@ == s@,
            y@ == prefix@,
            forall|j: int| 0 <= j < i ==> x@[j] == y@[j],
        decreases y@.len() - i,
    {
        if x[i] != y[i] {
            assert(s@.subrange(0, prefix@.len() as int)[i as int] != prefix@[i as int]);
            return false;
        }
        i += 1;
    }
    assert(prefix@ =~= s@.subrange(0, prefix@.len() as int));
    true
}

/// `s` without the white space that it starts with.
pub open spec fn trim_start(s: Seq<char>) -> Seq<char>
    decreases s.len(),
{
    if s.len() > 0 && is_white_space(s.first()) {
        trim_start(s.drop_first())
    } else {
        s
    }
}

/// `s` without the white space that it ends with.
pub open spec fn trim_end(s: Seq<char>) -> Seq<char>
    decreases s.len(),
{
    if s.len() > 0 && is_white_space(s.last()) {
        trim_end(s.drop_last())
    } else {
        s
    }
}

/// `s` without the white space around it.
pub open spec fn trimmed(s: Seq<char>) -> Seq<char> {
    trim_end(trim_start(s))
}

/// Cuts the white space off the front of a text.
pub fn skip_white_space(s: &[char]) -> (r: &[char])
    ensures
        r@ == trim_start(s@),
{
    let mut i: usize = 0;
    assert(s@.skip(0) == s@);
    while i < s.len() && white_space(s[i])
        invariant
            i <= s@.len(),
            trim_start(s@.skip(i as int)) == trim_start(s@),
        decreases s@.len() - i,
    {
        assert(s@.skip(i as int).drop_first() == s@.skip(i + 1));
        i += 1;
    }
    assert(s@.skip(i as int) == s@.subrange(i as int, s@.len() as int));
    &s[i..s.len()]
}

/// Cuts the white space off both ends of a text.
pub fn trim(s: &[char]) -> (r: &[char])
    ensures
        r@ == trimmed(s@),
{
    let t = skip_white_space(s);
    let mut n: usize = t.len();
    assert(t@.take(n as int) == t@);
    while n > 0 && white_space(t[n - 1])
        invariant
            n <= t@.len(),
            trim_end(t@.take(n as int)) == trim_end(t@),
        decreases n,
    {
        assert(t@.take(n as int).drop_last() == t@.take(n - 1));
        n -= 1;
    }
    assert(t@.take(n as int) == t@.subrange(0, n as int));
    &t[0..n]
}

/// What `trim_start` leaves: a shorter text that is empty or starts with a
/// character other than white space.
pub proof fn lemma_trim_start(s: Seq<char>)
    ensures
        trim_start(s).len() <= s.len(),
        trim_start(s).len() > 0 ==> !is_white_space(trim_start(s).first()),
        trim_start(s) == s.skip(s.len() - trim_start(s).len()),
        forall|j: int|
            0 <= j < s.len() - trim_start(s).len() ==> is_white_space(#[trigger] s[j]),
    decreases s.len(),
{
    if s.len() > 0 && is_white_space(s.first()) {
        let t = s.drop_first();
        lemma_trim_start(t);
        let n = s.len() - trim_start(s).len();
        assert(s.skip(n) == t.skip(n - 1));
        assert forall|j: int| 0 <= j < n implies is_white_space(#[trigger] s[j]) by {
            if j > 0 {
                assert(s[j] == t[j - 1]);
            }
        }
    } else {
        assert(s.skip(0) == s);
    }
}

/// What `trim_end` leaves: a shorter text that is empty or ends with a
/// character other than white space.
pub proof fn lemma_trim_end(s: Seq<char>)
    ensures
        trim_end(s).len() <= s.len(),
        trim_end(s).len() > 0 ==> !is_white_space(trim_end(s).last()),
        trim_end(s) == s.take(trim_end(s).len() as int),
        forall|j: int| trim_end(s).len() <= j < s.len() ==> is_white_space(#[trigger] s[j]),
    decreases s.len(),
{
    if s.len() > 0 && is_white_space(s.last()) {
        let t = s.drop_last();
        lemma_trim_end(t);
        assert(s.take(trim_end(s).len() as int) == t.take(trim_end(s).len() as int));
        assert forall|j: int| trim_end(s).len() <= j < s.len() implies is_white_space(
            #[trigger] s[j],
        ) by {
            if j < t.len() {
                assert(s[j] == t[j]);
            }
        }
    } else {
        assert(s.take(s.len() as int) == s);
    }
}

/// The number of white space characters that trimming takes off the front.
pub open spec fn trimmed_from(s: Seq<char>) -> int {
    s.len() - trim_start(s).len()
}

/// Trimming takes off white space only, and all of it that is at an end: what
/// is left is a part of the text that is empty or has other characters at both
/// ends.
pub proof fn law_trimmed(s: Seq<char>)
    ensures
        0 <= trimmed_from(s),
        trimmed_from(s) + trimmed(s).len() <= s.len(),
        trimmed(s) == s.subrange(trimmed_from(s), trimmed_from(s) + trimmed(s).len()),
        forall|j: int| 0 <= j < trimmed_from(s) ==> is_white_space(#[trigger] s[j]),
        forall|j: int|
            trimmed_from(s) + trimmed(s).len() <= j < s.len() ==> is_white_space(#[trigger] s[j]),
        trimmed(s).len() > 0 ==> {
            &&& !is_white_space(trimmed(s).first())
            &&& !is_white_space(trimmed(s).last())
        },
{
    let t = trim_start(s);
    let from = trimmed_from(s);
    lemma_trim_start(s);
    lemma_trim_end(t);
    assert(trimmed(s) =~= s.subrange(from, from + trimmed(s).len()));
    assert forall|j: int| from + trimmed(s).len() <= j < s.len() implies is_white_space(
        #[trigger] s[j],
    ) by {
        assert(s[j] == t[j - from]);
    }
    if trimmed(s).len() > 0 {
        assert(trimmed(s).first() == t.first());
    }
}

/// A text without white space at its ends is left as it is.
pub proof fn law_trimmed_again(s: Seq<char>)
    ensures
        s.len() == 0 || (!is_white_space(s.first()) && !is_white_space(s.last())) ==> trimmed(s)
            == s,
        trimmed(trimmed(s)) == trimmed(s),
{
    law_trimmed(s);
}

/// The position of the first `c` in `s`, or the length of `s` where it has none.
pub open spec fn find_char(s: Seq<char>, c: char) -> nat
    decreases s.len(),
{
    if s.len() == 0 || s.first() == c {
        0
    } else {
        1 + find_char(s.drop_first(), c)
    }
}

/// Where `find_char` points: at the first `c`, or past the text.
pub proof fn lemma_find_char(s: Seq<char>, c: char)
    ensures
        find_char(s, c) <= s.len(),
        find_char(s, c) < s.len() ==> s[find_char(s, c) as int] == c,
        forall|j: int| 0 <= j < find_char(s, c) ==> #[trigger] s[j] != c,
    decreases s.len(),
{
    if s.len() > 0 && s.first() != c {
        let t = s.drop_first();
        lemma_find_char(t, c);
        assert forall|j: int| 0 <= j < find_char(s, c) implies #[trigger] s[j] != c by {
            if j > 0 {
                assert(s[j] == t[j - 1]);
            }
        }
    }
}

/// Finds the first `c` in `s`.
pub fn position_of(s: &[char], c: char) -> (r: usize)
    ensures
        r == find_char(s@, c),
        r <= s@.len(),
{
    let mut i: usize = 0;
    assert(s@.skip(0) == s@);
    while i < s.len() && s[i] != c
        invariant
            i <= s@.len(),
            i + find_char(s@.skip(i as int), c) == find_char(s@, c),
        decreases s@.len() - i,
    {
        assert(s@.skip(i as int).drop_first() == s@.skip(i + 1));
        i += 1;
    }
    i
}

/// `c` with an ASCII upper-case letter replaced by its lower-case one.
pub open spec fn lower_char(c: char) -> char {
    if 'A' <= c <= 'Z' {
        ((c as u32) + 32) as char
    } else {
        c
    }
}

/// `s` with every ASCII upper-case letter replaced by its lower-case one.
pub open spec fn ascii_lower(s: Seq<char>) -> Seq<char> {
    s.map_values(|c: char| lower_char(c))
}

/// The ASCII lower-case form of one character.
pub fn to_lower(c: char) -> (r: char)
    ensures
        r == lower_char(c),
{
    if 'A' <= c && c <= 'Z' {
        ((c as u8) + 32) as char
    } else {
        c
    }
}

/// The ASCII lower-case form of a text.
pub fn to_ascii_lower(s: &[char]) -> (r: String)
    ensures
        r@ == ascii_lower(s@),
{
    let mut r = String::new();
    let mut i: usize = 0;
    while i < s.len()
        invariant
            i <= s@.len(),
            r@ == ascii_lower(s@.take(i as int)),
        decreases s@.len() - i,
    {
        r.push(to_lower(s[i]));
        i += 1;
        assert(ascii_lower(s@.take(i as int)) == ascii_lower(s@.take(i - 1)).push(
            lower_char(s@[i - 1]),
        ));
    }
    assert(s@.take(i as int) == s@);
    r
}

/// Whether two texts are equal but for the case of ASCII letters.
pub fn eq_ignore_ascii_case(a: &str, b: &str) -> (r: bool)
    ensures
        r == (ascii_lower(a@) == ascii_lower(b@)),
{
    let x = to_chars(a);
    let y = to_chars(b);
    if x.len() != y.len() {
        assert(ascii_lower(a@).len() != ascii_lower(b@).len());
        return false;
    }
    let mut i: usize = 0;
    while i < x.len()
        invariant
            i <= x@.len(),
            x@.len() == y@.len(),
            x@ == a@,
            y@ == b@,
            forall|j: int| 0 <= j < i ==> lower_char(x@[j]) == lower_char(#[trigger] y@[j]),
        decreases x@.len() - i,
    {
        if to_lower(x[i]) != to_lower(y[i]) {
            assert(ascii_lower(a@)[i as int] != ascii_lower(b@)[i as int]);
            return false;
        }
        i += 1;
    }
    assert(ascii_lower(a@) =~= ascii_lower(b@));
    true
}

/// The number of characters before the first white space in `s`.
pub open spec fn word_len(s: Seq<char>) -> nat
    decreases s.len(),
{
    if s.len() == 0 || is_white_space(s.first()) {
        0
    } else {
        1 + word_len(s.drop_first())
    }
}

/// The words of `s`, which white space separates.
pub open spec fn words(s: Seq<char>) -> Seq<Seq<char>>
    decreases s.len(),
    via words_decreases
{
    let t = trim_start(s);
    let n = word_len(t);
    if t.len() == 0 {
        Seq::empty()
    } else {
        seq![t.take(n as int)] + words(t.skip(n as int))
    }
}

#[via_fn]
proof fn words_decreases(s: Seq<char>) {
    lemma_trim_start(s);
    lemma_word_len(trim_start(s));
}

/// Where `word_len` points: at the first white space, or past the text.
pub proof fn lemma_word_len(s: Seq<char>)
    ensures
        word_len(s) <= s.len(),
        s.len() > 0 && !is_white_space(s.first()) ==> word_len(s) > 0,
        word_len(s) < s.len() ==> is_white_space(s[word_len(s) as int]),
        forall|j: int| 0 <= j < word_len(s) ==> !is_white_space(#[trigger] s[j]),
    decreases s.len(),
{
    if s.len() > 0 && !is_white_space(s.first()) {
        let t = s.drop_first();
        lemma_word_len(t);
        assert forall|j: int| 0 <= j < word_len(s) implies !is_white_space(#[trigger] s[j]) by {
            if j > 0 {
                assert(s[j] == t[j - 1]);
            }
        }
    }
}

/// Takes the first word off a text: the word and what follows it.
pub fn next_word(s: &[char]) -> (r: Option<(&[char], &[char])>)
    ensures
        match r {
            Some((word, rest)) => words(s@) == seq![word@] + words(rest@),
            None => words(s@) == Seq::<Seq<char>>::empty(),
        },
{
    let t = skip_white_space(s);
    proof {
        lemma_trim_start(s@);
        lemma_word_len(t@);
    }
    if t.len() == 0 {
        return None;
    }
    let mut n: usize = 0;
    assert(t@.skip(0) == t@);
    while n < t.len() && !white_space(t[n])
        invariant
            n <= t@.len(),
            n + word_len(t@.skip(n as int)) == word_len(t@),
        decreases t@.len() - n,
    {
        assert(t@.skip(n as int).drop_first() == t@.skip(n + 1));
        n += 1;
    }
    assert(t@.take(n as int) == t@.subrange(0, n as int));
    assert(t@.skip(n as int) == t@.subrange(n as int, t@.len() as int));
    Some((&t[0..n], &t[n..t.len()]))
}

/// White space is what Unicode lists as such: twenty-five characters, by their
/// numbers.
pub proof fn law_white_space(c: char)
    ensures
        is_white_space(c) <==> {
            let n = c as u32;
            ||| 9 <= n <= 13
            ||| n == 32
            ||| n == 0x85
            ||| n == 0xa0
            ||| n == 0x1680
            ||| 0x2000 <= n <= 0x200a
            ||| n == 0x2028
            ||| n == 0x2029
            ||| n == 0x202f
            ||| n == 0x205f
            ||| n == 0x3000
        },
{
}

/// What is left of a text between white space in front of it and behind it is
/// that text, character for character, where it has other characters at both
/// ends or is empty.
pub proof fn law_trims_white_space_only(front: Seq<char>, s: Seq<char>, behind: Seq<char>)
    requires
        forall|j: int| 0 <= j < front.len() ==> is_white_space(#[trigger] front[j]),
        forall|j: int| 0 <= j < behind.len() ==> is_white_space(#[trigger] behind[j]),
        s.len() > 0 ==> !is_white_space(s.first()) && !is_white_space(s.last()),
    ensures
        trimmed(front + s + behind) == s,
{
    let all = front + s + behind;
    law_trimmed(all);
    let from = trimmed_from(all);
    let t = trimmed(all);
    let n = front.len() as int;
    let m = n + s.len();
    if s.len() > 0 {
        assert(all[n] == s.first() && all[m - 1] == s.last());
        assert(from <= n);
        assert(m <= from + t.len());
        if from < n {
            assert(all[from] == front[from]);
            assert(t.first() == all[from]);
        }
        let end = from + t.len();
        if end > m {
            assert(all[end - 1] == behind[end - 1 - m]);
            assert(t.last() == all[end - 1]);
        }
        assert(t =~= s);
    } else if t.len() > 0 {
        assert(t.first() == all[from]);
        if from < n {
            assert(all[from] == front[from]);
        } else {
            assert(all[from] == behind[from - n]);
        }
    } else {
        assert(t =~= s);
    }
}

/// The first place of a character in a text is the one with none before it, and
/// a text without it has its length for one.
pub proof fn law_first_place(before: Seq<char>, c: char, behind: Seq<char>)
    requires
        forall|j: int| 0 <= j < before.len() ==> #[trigger] before[j] != c,
    ensures
        find_char(before + seq![c] + behind, c) == before.len(),
        find_char(before, c) == before.len(),
{
    let all = before + seq![c] + behind;
    lemma_find_char(all, c);
    lemma_find_char(before, c);
    let i = find_char(all, c) as int;
    assert(all[before.len() as int] == c);
    if i < before.len() {
        assert(all[i] == before[i]);
    }
}

/// Lower case changes the twenty-six capital letters of ASCII, each to the
/// letter that is thirty-two places further, and leaves every other character
/// and all places alone.
pub proof fn law_lower_case(s: Seq<char>, i: int)
    requires
        0 <= i < s.len(),
    ensures
        ascii_lower(s).len() == s.len(),
        65 <= s[i] as u32 <= 90 ==> ascii_lower(s)[i] as int == s[i] as int + 32,
        !(65 <= s[i] as u32 <= 90) ==> ascii_lower(s)[i] == s[i],
{
    let c = s[i];
    assert(ascii_lower(s)[i] == lower_char(c));
}

/// White space holds no words, and a word with white space or nothing behind it
/// is the first of the words of a text, whatever white space is in front of it.
pub proof fn law_words(front: Seq<char>, word: Seq<char>, behind: Seq<char>)
    requires
        forall|j: int| 0 <= j < front.len() ==> is_white_space(#[trigger] front[j]),
        forall|j: int| 0 <= j < word.len() ==> !is_white_space(#[trigger] word[j]),
        behind.len() > 0 ==> is_white_space(behind.first()),
    ensures
        words(front) == Seq::<Seq<char>>::empty(),
        word.len() > 0 ==> words(front + word + behind) == seq![word] + words(behind),
{
    lemma_trim_start(front);
    if trim_start(front).len() > 0 {
        let n = front.len() - trim_start(front).len();
        assert(trim_start(front).first() == front[n]);
    }
    if word.len() > 0 {
        let all = front + word + behind;
        let t = trim_start(all);
        let n = front.len() as int;
        let from = all.len() - t.len();
        lemma_trim_start(all);
        assert(all[n] == word[0]);
        assert(from <= n);
        if from < n {
            assert(t.first() == all[from]);
            assert(all[from] == front[from]);
        }
        assert(t == word + behind);
        lemma_word_len(t);
        let k = word_len(t) as int;
        if k < word.len() {
            assert(t[k] == word[k]);
        }
        if k > word.len() {
            assert(t[word.len() as int] == behind[0]);
        }
        assert(t.take(k) == word);
        assert(t.skip(k) == behind);
    }
}

} // verus!
