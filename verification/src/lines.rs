//! Lines of text, which a carriage return and a line feed separate.

use vstd::prelude::*;

verus! {

/// The position of the first carriage return that a line feed follows, or the
/// length of `s` where there is none.
pub open spec fn find_crlf(s: Seq<char>) -> nat
    decreases s.len(),
{
    if s.len() < 2 {
        s.len()
    } else if s[0] == '\r' && s[1] == '\n' {
        0
    } else {
        1 + find_crlf(s.drop_first())
    }
}

/// The lines of `s`, which a carriage return and a line feed separate.
pub open spec fn lines(s: Seq<char>) -> Seq<Seq<char>>
    decreases s.len(),
    via lines_decreases
{
    let i = find_crlf(s);
    if i < s.len() {
        seq![s.take(i as int)] + lines(s.skip(i + 2int))
    } else {
        seq![s]
    }
}

#[via_fn]
proof fn lines_decreases(s: Seq<char>) {
    lemma_find_crlf(s);
}

/// Where `find_crlf` points: at the first line end, or past the text.
pub proof fn lemma_find_crlf(s: Seq<char>)
    ensures
        find_crlf(s) <= s.len(),
        find_crlf(s) < s.len() ==> {
            &&& find_crlf(s) + 2 <= s.len()
            &&& s[find_crlf(s) as int] == '\r'
            &&& s[find_crlf(s) + 1int] == '\n'
        },
        forall|j: int|
            0 <= j < find_crlf(s) && j + 1 < s.len() ==> !(#[trigger] s[j] == '\r' && s[j + 1]
                == '\n'),
    decreases s.len(),
{
    if s.len() >= 2 && !(s[0] == '\r' && s[1] == '\n') {
        let t = s.drop_first();
        lemma_find_crlf(t);
        assert forall|j: int| 0 <= j < find_crlf(s) && j + 1 < s.len() implies !(#[trigger] s[j]
            == '\r' && s[j + 1] == '\n') by {
            if j > 0 {
                assert(s[j] == t[j - 1] && s[j + 1] == t[j]);
            }
        }
    }
}

/// Finds the first line end in `s`.
pub fn position_of_crlf(s: &[char]) -> (r: usize)
    ensures
        r == find_crlf(s@),
        r < s@.len() ==> r + 2 <= s@.len(),
        r <= s@.len(),
{
    let mut i: usize = 0;
    assert(s@.skip(0) == s@);
    while i < s.len()
        invariant
            i <= s@.len(),
            i + find_crlf(s@.skip(i as int)) == find_crlf(s@),
        decreases s@.len() - i,
    {
        let ghost rest = s@.skip(i as int);
        assert(rest.drop_first() == s@.skip(i + 1));
        if s.len() - i < 2 {
            return s.len();
        }
        assert(rest[0] == s@[i as int] && rest[1] == s@[i + 1]);
        if s[i] == '\r' && s[i + 1] == '\n' {
            return i;
        }
        i += 1;
    }
    i
}

/// Whether a text holds no line end.
pub open spec fn one_line(s: Seq<char>) -> bool {
    find_crlf(s) == s.len()
}

/// A text holds no line end exactly where no line feed follows a carriage
/// return.
pub proof fn lemma_one_line(s: Seq<char>)
    ensures
        one_line(s) <==> forall|j: int|
            0 <= j && j + 1 < s.len() ==> !(#[trigger] s[j] == '\r' && s[j + 1] == '\n'),
{
    lemma_find_crlf(s);
    let i = find_crlf(s) as int;
    if i < s.len() {
        assert(s[i] == '\r' && s[i + 1] == '\n');
    }
}

/// A part of a text without line ends has none.
pub proof fn lemma_part_of_one_line(s: Seq<char>, from: int, to: int)
    requires
        one_line(s),
        0 <= from <= to <= s.len(),
    ensures
        one_line(s.subrange(from, to)),
{
    let t = s.subrange(from, to);
    lemma_one_line(s);
    lemma_one_line(t);
    assert forall|j: int| 0 <= j && j + 1 < t.len() implies !(#[trigger] t[j] == '\r' && t[j + 1]
        == '\n') by {
        assert(t[j] == s[from + j] && t[j + 1] == s[from + j + 1]);
    }
}

/// Whether no character of a text is a carriage return.
pub open spec fn without_return(s: Seq<char>) -> bool {
    forall|j: int| 0 <= j < s.len() ==> #[trigger] s[j] != '\r'
}

/// A text without carriage returns keeps to one line.
pub proof fn lemma_without_return(s: Seq<char>)
    requires
        without_return(s),
    ensures
        one_line(s),
{
    lemma_one_line(s);
}

/// A text without line ends keeps to one line behind a text without carriage
/// returns.
pub proof fn lemma_one_line_behind(a: Seq<char>, b: Seq<char>)
    requires
        without_return(a),
        one_line(b),
    ensures
        one_line(a + b),
{
    let s = a + b;
    lemma_one_line(b);
    lemma_one_line(s);
    assert forall|j: int| 0 <= j && j + 1 < s.len() implies !(#[trigger] s[j] == '\r' && s[j + 1]
        == '\n') by {
        if j < a.len() {
            assert(a[j] != '\r');
        } else {
            assert(b[j - a.len()] == s[j] && b[j - a.len() + 1] == s[j + 1]);
        }
    }
}

/// A carriage return and a line feed.
pub open spec fn crlf() -> Seq<char> {
    seq!['\r', '\n']
}

/// A line, a line end and what follows it are split after the line.
pub proof fn lemma_lines_of_line(line: Seq<char>, rest: Seq<char>)
    requires
        one_line(line),
    ensures
        lines(line + crlf() + rest) == seq![line] + lines(rest),
{
    let s = line + crlf() + rest;
    lemma_find_crlf(s);
    lemma_one_line(line);
    let i = find_crlf(s) as int;
    let n = line.len() as int;
    assert(s[n] == '\r' && s[n + 1] == '\n');
    if i < n {
        assert(s[i] == '\r' && s[i + 1] == '\n');
        if i + 1 < n {
            assert(line[i] == '\r' && line[i + 1] == '\n');
        }
    }
    assert(i == n);
    assert(s.take(i) == line);
    assert(s.skip(i + 2) == rest);
}

/// The lines, each with a line end behind it.
pub open spec fn lines_text(ls: Seq<Seq<char>>) -> Seq<char>
    decreases ls.len(),
{
    if ls.len() == 0 {
        Seq::empty()
    } else {
        lines_text(ls.drop_last()) + ls.last() + crlf()
    }
}

/// Lines that are written one after the other are read back one by one.
pub proof fn law_lines_read_back(ls: Seq<Seq<char>>, rest: Seq<char>)
    requires
        forall|i: int| 0 <= i < ls.len() ==> one_line(#[trigger] ls[i]),
    ensures
        lines(lines_text(ls) + rest) == ls + lines(rest),
    decreases ls.len(),
{
    if ls.len() == 0 {
        assert(lines_text(ls) + rest == rest);
        assert(ls + lines(rest) == lines(rest));
    } else {
        let before = ls.drop_last();
        let line = ls.last();
        let tail = line + crlf() + rest;
        assert forall|i: int| 0 <= i < before.len() implies one_line(#[trigger] before[i]) by {
            assert(before[i] == ls[i]);
        }
        law_lines_read_back(before, tail);
        assert(one_line(ls[ls.len() - 1]));
        lemma_lines_of_line(line, rest);
        assert(lines_text(ls) + rest == lines_text(before) + tail);
        assert(before + (seq![line] + lines(rest)) == ls + lines(rest));
    }
}

/// The lines of a text hold no line ends, there is at least one, and the text
/// is made of them.
pub proof fn law_lines(s: Seq<char>)
    ensures
        lines(s).len() > 0,
        forall|i: int| 0 <= i < lines(s).len() ==> one_line(#[trigger] lines(s)[i]),
        s == lines_text(lines(s).drop_last()) + lines(s).last(),
    decreases s.len(),
{
    lemma_find_crlf(s);
    let i = find_crlf(s) as int;
    if i < s.len() {
        let line = s.take(i);
        let rest = s.skip(i + 2);
        let ls = lines(s);
        law_lines(rest);
        lemma_one_line(line);
        assert(one_line(line));
        assert(ls == seq![line] + lines(rest));
        assert forall|k: int| 0 <= k < ls.len() implies one_line(#[trigger] ls[k]) by {
            if k > 0 {
                assert(ls[k] == lines(rest)[k - 1]);
            }
        }
        assert(ls.drop_last() == seq![line] + lines(rest).drop_last());
        lemma_lines_text_first(line, lines(rest).drop_last());
        assert(s == line + crlf() + rest);
        assert(line + crlf() + rest == (line + crlf() + lines_text(lines(rest).drop_last()))
            + lines(rest).last());
    } else {
        assert(lines(s).drop_last() == Seq::<Seq<char>>::empty());
        assert(lines_text(lines(s).drop_last()) + s == s);
    }
}

/// The text of lines starts with the first of them.
proof fn lemma_lines_text_first(line: Seq<char>, ls: Seq<Seq<char>>)
    ensures
        lines_text(seq![line] + ls) == line + crlf() + lines_text(ls),
    decreases ls.len(),
{
    let all = seq![line] + ls;
    if ls.len() == 0 {
        assert(all.drop_last() == Seq::<Seq<char>>::empty());
        assert(all.last() == line);
        assert(lines_text(all.drop_last()) == Seq::<char>::empty());
        assert(lines_text(all) =~= line + crlf() + lines_text(ls));
    } else {
        assert(all.drop_last() == seq![line] + ls.drop_last());
        lemma_lines_text_first(line, ls.drop_last());
        assert(lines_text(all) =~= line + crlf() + lines_text(ls));
    }
}

/// A head with those lines: an empty line ends it.
pub open spec fn head_of(ls: Seq<Seq<char>>) -> Seq<char> {
    lines_text(ls) + crlf()
}

/// A head is read as the lines that it was written with; it ends with an empty
/// line.
pub proof fn law_head_lines_read_back(ls: Seq<Seq<char>>)
    requires
        forall|i: int| 0 <= i < ls.len() ==> one_line(#[trigger] ls[i]),
    ensures
        lines(head_of(ls)) == ls + seq![Seq::<char>::empty(), Seq::<char>::empty()],
{
    let empty = Seq::<char>::empty();
    law_lines_read_back(ls, crlf());
    lemma_lines_of_line(empty, empty);
    assert(empty + crlf() + empty == crlf());
    assert(lines(empty) == seq![empty]);
    assert(seq![empty] + seq![empty] == seq![empty, empty]);
}

/// A line end at `j` splits a text into lines before it and lines behind it.
proof fn lemma_lines_split(s: Seq<char>, j: int)
    requires
        0 <= j,
        j + 1 < s.len(),
        s[j] == '\r',
        s[j + 1] == '\n',
    ensures
        lines(s) == lines(s.take(j)) + lines(s.skip(j + 2)),
    decreases s.len(),
{
    lemma_find_crlf(s);
    let i = find_crlf(s) as int;
    let front = s.take(j);
    lemma_find_crlf(front);
    lemma_one_line(front);
    if i == j {
        assert forall|k: int| 0 <= k && k + 1 < front.len() implies !(#[trigger] front[k] == '\r'
            && front[k + 1] == '\n') by {
            assert(front[k] == s[k] && front[k + 1] == s[k + 1]);
        }
        assert(one_line(front));
        assert(lines(front) == seq![front]);
    } else {
        if i > j {
            assert(!(s[j] == '\r' && s[j + 1] == '\n'));
        }
        assert(i + 2 <= j);
        assert(front[i] == '\r' && front[i + 1] == '\n');
        let k = find_crlf(front) as int;
        if k < i {
            assert(front[k] == s[k] && front[k + 1] == s[k + 1]);
            assert(!(s[k] == '\r' && s[k + 1] == '\n'));
        }
        if k > i {
            assert(!(front[i] == '\r' && front[i + 1] == '\n'));
        }
        assert(k == i);
        let rest = s.skip(i + 2);
        let m = j - i - 2;
        assert(rest[m] == '\r' && rest[m + 1] == '\n');
        lemma_lines_split(rest, m);
        assert(front.take(i) == s.take(i));
        assert(front.skip(i + 2) == rest.take(m));
        assert(s.skip(j + 2) == rest.skip(m + 2));
        assert(lines(s) == seq![s.take(i)] + lines(rest));
        assert(lines(front) == seq![s.take(i)] + lines(rest.take(m)));
        assert(seq![s.take(i)] + (lines(rest.take(m)) + lines(rest.skip(m + 2))) == (seq![s.take(i)]
            + lines(rest.take(m))) + lines(rest.skip(m + 2)));
    }
}

/// A head made of lines that are not empty holds no empty line but the one that
/// ends it.
pub proof fn law_head_ends_once(ls: Seq<Seq<char>>, j: int)
    requires
        ls.len() > 0,
        forall|i: int| 0 <= i < ls.len() ==> one_line(#[trigger] ls[i]) && ls[i].len() > 0,
        0 <= j,
        j + 4 <= head_of(ls).len(),
        head_of(ls)[j] == '\r',
        head_of(ls)[j + 1] == '\n',
        head_of(ls)[j + 2] == '\r',
        head_of(ls)[j + 3] == '\n',
    ensures
        j + 4 == head_of(ls).len(),
{
    let s = head_of(ls);
    let empty = Seq::<char>::empty();
    law_head_lines_read_back(ls);
    let all = lines(s);
    let front = lines(s.take(j));
    let behind = s.skip(j + 2);
    let rest = behind.skip(2);
    lemma_lines_split(s, j);
    assert(behind[0] == '\r' && behind[1] == '\n');
    lemma_lines_split(behind, 0);
    assert(behind.take(0) == empty);
    assert(lines(empty) == seq![empty]);
    law_lines(s.take(j));
    law_lines(rest);
    assert(all == front + (seq![empty] + lines(rest)));
    let n = front.len() as int;
    assert(all[n] == empty);
    if n < ls.len() {
        assert(all[n] == ls[n]);
    }
    assert(all.len() == ls.len() + 2);
    assert(n == ls.len());
    assert(lines(rest).len() == 1);
    assert(all[n + 1] == lines(rest)[0]);
    assert(all[n + 1] == empty);
    assert(lines(rest).drop_last() == Seq::<Seq<char>>::empty());
    assert(rest == lines_text(lines(rest).drop_last()) + lines(rest).last());
    assert(rest.len() == 0);
}

/// A text is split wherever a carriage return and a line feed stand next to each
/// other, and nowhere else: a text without the two is one line, and the lines
/// of two texts with the two between them are those of the one and then those
/// of the other.
pub proof fn law_split_at_line_ends(a: Seq<char>, b: Seq<char>)
    ensures
        lines(a + seq!['\r', '\n'] + b) == lines(a) + lines(b),
        (forall|j: int| 0 <= j && j + 1 < a.len() ==> !(#[trigger] a[j] == '\r' && a[j + 1] == '\n'))
            ==> lines(a) == seq![a],
{
    let s = a + seq!['\r', '\n'] + b;
    let n = a.len() as int;
    assert(s[n] == '\r' && s[n + 1] == '\n');
    lemma_lines_split(s, n);
    assert(s.take(n) == a);
    assert(s.skip(n + 2) == b);
    lemma_one_line(a);
}

} // verus!
