//! Splitting and joining.

use vstd::prelude::*;

use super::chars::{char_is_whitespace, chars_of, is_whitespace, string_of};

verus! {

/// The position of the first `c` in `s`, or the length of `s` where there is none.
pub open spec fn find_char(s: Seq<char>, c: char) -> nat
    decreases s.len(),
{
    if s.len() == 0 || s[0] == c {
        0
    } else {
        1 + find_char(s.drop_first(), c)
    }
}

/// The position of the first whitespace in `s`, or the length of `s` where there is none.
pub open spec fn find_whitespace(s: Seq<char>) -> nat
    decreases s.len(),
{
    if s.len() == 0 || is_whitespace(s[0]) {
        0
    } else {
        1 + find_whitespace(s.drop_first())
    }
}

/// What stands before and after the first `c`.
pub open spec fn split_once(s: Seq<char>, c: char) -> Option<(Seq<char>, Seq<char>)> {
    let k = find_char(s, c) as int;
    if k < s.len() {
        Some((s.take(k), s.skip(k + 1)))
    } else {
        None
    }
}

/// What stands before and after the first whitespace.
pub open spec fn split_once_whitespace(s: Seq<char>) -> Option<(Seq<char>, Seq<char>)> {
    let k = find_whitespace(s) as int;
    if k < s.len() {
        Some((s.take(k), s.skip(k + 1)))
    } else {
        None
    }
}

/// The pieces of `s` between the copies of `c`.
pub open spec fn split(s: Seq<char>, c: char) -> Seq<Seq<char>>
    decreases s.len(),
{
    let k = find_char(s, c) as int;
    if k < s.len() {
        seq![s.take(k)] + split(s.skip(k + 1), c)
    } else {
        seq![s]
    }
}

/// The non-empty pieces of `s` between whitespace.
pub open spec fn words(s: Seq<char>) -> Seq<Seq<char>>
    decreases s.len(),
{
    if s.len() == 0 {
        Seq::empty()
    } else if is_whitespace(s[0]) {
        words(s.drop_first())
    } else {
        let k = find_whitespace(s) as int;
        proof {
            find_whitespace_is_first(s);
        }
        seq![s.take(k)] + words(s.skip(k))
    }
}

/// A line without the carriage return before its line feed.
pub open spec fn without_cr(s: Seq<char>) -> Seq<char> {
    if s.len() > 0 && s.last() == '\r' {
        s.drop_last()
    } else {
        s
    }
}

/// The lines of `s`: each ends at a line feed or a carriage return and a line feed, and a line
/// ending at the end of `s` starts no further line.
pub open spec fn lines(s: Seq<char>) -> Seq<Seq<char>>
    decreases s.len(),
{
    let k = find_char(s, '\n') as int;
    if s.len() == 0 {
        Seq::empty()
    } else if k < s.len() {
        seq![without_cr(s.take(k))] + lines(s.skip(k + 1))
    } else {
        seq![s]
    }
}

/// `parts` with `sep` between each two of them.
pub open spec fn join(parts: Seq<Seq<char>>, sep: Seq<char>) -> Seq<char>
    decreases parts.len(),
{
    if parts.len() == 0 {
        Seq::empty()
    } else if parts.len() == 1 {
        parts[0]
    } else {
        join(parts.drop_last(), sep) + sep + parts.last()
    }
}

/// What stands between two copies of a character is a piece: a text without the character is one
/// piece, and a piece, the character and more make that piece and the pieces of the rest.
pub proof fn pieces_stand_between_copies(piece: Seq<char>, c: char, rest: Seq<char>)
    requires
        forall|i: int| 0 <= i < piece.len() ==> piece[i] != c,
    ensures
        split(piece, c) == seq![piece],
        split(piece.push(c) + rest, c) == seq![piece] + split(rest, c),
        split_once(piece, c) is None,
        split_once(piece.push(c) + rest, c) == Some((piece, rest)),
{
    let whole = piece.push(c) + rest;
    first_is_find_char(piece, c, piece.len() as int);
    assert forall|j: int| 0 <= j < piece.len() implies whole[j] != c by {
        assert(whole[j] == piece[j]);
    }
    first_is_find_char(whole, c, piece.len() as int);
    assert(whole.take(piece.len() as int) =~= piece);
    assert(whole.skip(piece.len() as int + 1) =~= rest);
}

proof fn joined_in_front(first: Seq<char>, parts: Seq<Seq<char>>, sep: Seq<char>)
    requires
        parts.len() > 0,
    ensures
        join(seq![first] + parts, sep) == first + sep + join(parts, sep),
    decreases parts.len(),
{
    reveal_with_fuel(join, 2);
    let all = seq![first] + parts;
    assert(all.last() == parts.last());
    assert(all.drop_last() =~= seq![first] + parts.drop_last());
    if parts.len() == 1 {
        assert(all.drop_last() =~= seq![first]);
    } else {
        joined_in_front(first, parts.drop_last(), sep);
        assert(first + sep + join(parts.drop_last(), sep) + sep + parts.last() =~= first + sep + (
        join(parts.drop_last(), sep) + sep + parts.last()));
    }
}

/// Joining puts the separator between the parts, and nowhere else; and the pieces of a text, joined
/// again, are the text.
pub proof fn joining_undoes_splitting(s: Seq<char>, c: char, a: Seq<char>, b: Seq<char>, sep: Seq<char>)
    ensures
        join(split(s, c), seq![c]) == s,
        join(seq![], sep) == Seq::<char>::empty(),
        join(seq![a], sep) == a,
        join(seq![a, b], sep) == a + sep + b,
    decreases s.len(),
{
    reveal_with_fuel(join, 2);
    assert(seq![a, b].drop_last() =~= seq![a]);
    let k = find_char(s, c) as int;
    find_char_is_first(s, c);
    if k < s.len() {
        joining_undoes_splitting(s.skip(k + 1), c, a, b, sep);
        joined_in_front(s.take(k), split(s.skip(k + 1), c), seq![c]);
        assert(s.take(k) + seq![c] + s.skip(k + 1) =~= s);
    }
}

/// Words stand between whitespace: a text without whitespace is one word, and whitespace, a word,
/// whitespace and more make that word and the words of the rest.
pub proof fn words_stand_between_whitespace(word: Seq<char>, c: char, rest: Seq<char>)
    requires
        word.len() > 0,
        forall|i: int| 0 <= i < word.len() ==> !is_whitespace(word[i]),
        is_whitespace(c),
    ensures
        words(word) == seq![word],
        words(word.push(c) + rest) == seq![word] + words(rest),
        words(seq![c] + rest) == words(rest),
        words(Seq::empty()) == Seq::<Seq<char>>::empty(),
        split_once_whitespace(word) is None,
        split_once_whitespace(word.push(c) + rest) == Some((word, rest)),
{
    reveal_with_fuel(words, 3);
    let whole = word.push(c) + rest;
    let n = word.len() as int;
    find_whitespace_is_first(word);
    find_whitespace_is_first(whole);
    assert(find_whitespace(word) == n);
    assert(whole[n] == c);
    assert forall|j: int| 0 <= j < n implies !is_whitespace(#[trigger] whole[j]) by {
        assert(whole[j] == word[j]);
    }
    let m = find_whitespace(whole) as int;
    assert(m < n ==> !is_whitespace(whole[m]));
    assert(m == n);
    assert(word.take(n) =~= word);
    assert(word.skip(n) =~= Seq::empty());
    assert(whole.take(n) =~= word);
    assert(whole.skip(n) =~= seq![c] + rest);
    assert(whole.skip(n + 1) =~= rest);
    assert((seq![c] + rest).drop_first() =~= rest);
    assert(words(word) =~= seq![word]);
}

/// Lines end at line feeds, with or without a carriage return before them; a line feed at the end
/// starts no further line.
pub proof fn lines_end_at_line_feeds(line: Seq<char>, rest: Seq<char>)
    requires
        forall|i: int| 0 <= i < line.len() ==> line[i] != '\n',
    ensures
        line.len() > 0 ==> lines(line) == seq![line],
        lines(Seq::empty()) == Seq::<Seq<char>>::empty(),
        line.len() == 0 || line.last() != '\r' ==> lines(line.push('\n') + rest) == seq![line]
            + lines(rest),
        lines(line.push('\r').push('\n') + rest) == seq![line] + lines(rest),
{
    let plain = line.push('\n') + rest;
    let marked = line.push('\r').push('\n') + rest;
    let n = line.len() as int;
    first_is_find_char(line, '\n', n);
    assert forall|j: int| 0 <= j < n implies plain[j] != '\n' by {
        assert(plain[j] == line[j]);
    }
    first_is_find_char(plain, '\n', n);
    assert(plain.take(n) =~= line);
    assert(plain.skip(n + 1) =~= rest);
    assert forall|j: int| 0 <= j < n + 1 implies marked[j] != '\n' by {
        if j < n {
            assert(marked[j] == line[j]);
        }
    }
    first_is_find_char(marked, '\n', n + 1);
    assert(marked.take(n + 1) =~= line.push('\r'));
    assert(line.push('\r').drop_last() =~= line);
    assert(marked.skip(n + 2) =~= rest);
}

/// `find_char` is the first position at which `c` stands.
pub proof fn find_char_is_first(s: Seq<char>, c: char)
    ensures
        find_char(s, c) <= s.len(),
        find_char(s, c) < s.len() ==> s[find_char(s, c) as int] == c,
        forall|j: int| 0 <= j < find_char(s, c) ==> s[j] != c,
    decreases s.len(),
{
    if s.len() > 0 && s[0] != c {
        find_char_is_first(s.drop_first(), c);
        assert forall|j: int| 0 <= j < find_char(s, c) implies s[j] != c by {
            if j > 0 {
                assert(s[j] == s.drop_first()[j - 1]);
            }
        }
    }
}

/// A position before which no `c` stands, and which holds a `c` or ends `s`, is `find_char`.
pub proof fn first_is_find_char(s: Seq<char>, c: char, k: int)
    requires
        0 <= k <= s.len(),
        forall|j: int| 0 <= j < k ==> s[j] != c,
        k < s.len() ==> s[k] == c,
    ensures
        find_char(s, c) == k,
{
    find_char_is_first(s, c);
}

/// `find_whitespace` is the first position at which whitespace stands.
pub proof fn find_whitespace_is_first(s: Seq<char>)
    ensures
        find_whitespace(s) <= s.len(),
        find_whitespace(s) < s.len() ==> is_whitespace(s[find_whitespace(s) as int]),
        forall|j: int| 0 <= j < find_whitespace(s) ==> !is_whitespace(s[j]),
    decreases s.len(),
{
    if s.len() > 0 && !is_whitespace(s[0]) {
        find_whitespace_is_first(s.drop_first());
        assert forall|j: int| 0 <= j < find_whitespace(s) implies !is_whitespace(s[j]) by {
            if j > 0 {
                assert(s[j] == s.drop_first()[j - 1]);
            }
        }
    }
}

/// The position of the first `c` in `v` from `from` on, or the length of `v`.
fn find_from(v: &Vec<char>, c: char, from: usize) -> (r: usize)
    requires
        from <= v@.len(),
    ensures
        from <= r <= v@.len(),
        r - from == find_char(v@.skip(from as int), c),
{
    let ghost rest = v@.skip(from as int);
    let mut i: usize = from;
    while i < v.len() && v[i] != c
        invariant
            from <= i <= v@.len(),
            rest == v@.skip(from as int),
            forall|j: int| 0 <= j < i - from ==> rest[j] != c,
        decreases v@.len() - i,
    {
        i = i + 1;
    }
    proof {
        first_is_find_char(rest, c, i - from);
    }
    i
}

/// The position of the first whitespace in `v` from `from` on, or the length of `v`.
fn find_whitespace_from(v: &Vec<char>, from: usize) -> (r: usize)
    requires
        from <= v@.len(),
    ensures
        from <= r <= v@.len(),
        r - from == find_whitespace(v@.skip(from as int)),
{
    let ghost rest = v@.skip(from as int);
    let mut i: usize = from;
    while i < v.len() && !char_is_whitespace(v[i])
        invariant
            from <= i <= v@.len(),
            rest == v@.skip(from as int),
            forall|j: int| 0 <= j < i - from ==> !is_whitespace(rest[j]),
        decreases v@.len() - i,
    {
        i = i + 1;
    }
    proof {
        find_whitespace_is_first(rest);
        let k = find_whitespace(rest) as int;
        assert(k < i - from ==> !is_whitespace(rest[k]));
        assert(i - from < k ==> !is_whitespace(rest[i - from]));
    }
    i
}

/// What stands before and after the first `c`.
pub fn split_once_at(s: &str, c: char) -> (r: Option<(String, String)>)
    ensures
        r.deep_view() == split_once(s@, c),
{
    let v = chars_of(s);
    assert(v@.skip(0) == v@);
    let k: usize = find_from(&v, c, 0);
    if k < v.len() {
        assert(v@.subrange(0, k as int) =~= v@.take(k as int));
        assert(v@.subrange(k + 1, v@.len() as int) =~= v@.skip(k + 1));
        Some((string_of(&v, 0, k), string_of(&v, k + 1, v.len())))
    } else {
        None
    }
}

/// What stands before and after the first whitespace.
pub fn split_once_at_whitespace(s: &str) -> (r: Option<(String, String)>)
    ensures
        r.deep_view() == split_once_whitespace(s@),
{
    let v = chars_of(s);
    assert(v@.skip(0) == v@);
    let k: usize = find_whitespace_from(&v, 0);
    if k < v.len() {
        assert(v@.subrange(0, k as int) =~= v@.take(k as int));
        assert(v@.subrange(k + 1, v@.len() as int) =~= v@.skip(k + 1));
        Some((string_of(&v, 0, k), string_of(&v, k + 1, v.len())))
    } else {
        None
    }
}

/// The pieces of `s` between the copies of `c`.
pub fn split_at_char(s: &str, c: char) -> (r: Vec<String>)
    ensures
        r.deep_view() == split(s@, c),
{
    let v = chars_of(s);
    let mut out: Vec<String> = Vec::new();
    let mut from: usize = 0;
    assert(v@.skip(0) == v@);
    assert(out.deep_view() + split(v@, c) =~= split(v@, c));
    loop
        invariant
            from <= v@.len(),
            v@ == s@,
            out.deep_view() + split(v@.skip(from as int), c) == split(s@, c),
        decreases v@.len() - from,
    {
        let ghost rest = v@.skip(from as int);
        let ghost before = out.deep_view();
        let k: usize = find_from(&v, c, from);
        let piece = string_of(&v, from, k);
        assert(piece@ =~= rest.take(k - from));
        if k < v.len() {
            proof {
                assert(rest.skip(k - from + 1) =~= v@.skip(k + 1));
                assert(before + (seq![piece@] + split(v@.skip(k + 1), c)) =~= before.push(piece@)
                    + split(v@.skip(k + 1), c));
            }
            out.push(piece);
            assert(out.deep_view() =~= before.push(piece@));
            from = k + 1;
        } else {
            assert(piece@ =~= rest);
            out.push(piece);
            assert(out.deep_view() =~= before.push(piece@));
            assert(before + seq![rest] =~= before.push(rest));
            return out;
        }
    }
}

/// The non-empty pieces of `s` between whitespace.
pub fn split_words(s: &str) -> (r: Vec<String>)
    ensures
        r.deep_view() == words(s@),
{
    let v = chars_of(s);
    let mut out: Vec<String> = Vec::new();
    let mut from: usize = 0;
    assert(v@.skip(0) == v@);
    assert(out.deep_view() + words(v@) =~= words(v@));
    while from < v.len()
        invariant
            from <= v@.len(),
            v@ == s@,
            out.deep_view() + words(v@.skip(from as int)) == words(s@),
        decreases v@.len() - from,
    {
        let ghost rest = v@.skip(from as int);
        let ghost before = out.deep_view();
        if char_is_whitespace(v[from]) {
            assert(rest.drop_first() =~= v@.skip(from + 1));
            from = from + 1;
        } else {
            let k: usize = find_whitespace_from(&v, from);
            proof {
                find_whitespace_is_first(rest);
            }
            let piece = string_of(&v, from, k);
            proof {
                assert(piece@ =~= rest.take(k - from));
                assert(rest.skip(k - from) =~= v@.skip(k as int));
                assert(before + (seq![piece@] + words(v@.skip(k as int))) =~= before.push(piece@)
                    + words(v@.skip(k as int)));
            }
            out.push(piece);
            assert(out.deep_view() =~= before.push(piece@));
            from = k;
        }
    }
    assert(v@.skip(from as int) =~= Seq::empty());
    assert(out.deep_view() + Seq::<Seq<char>>::empty() =~= out.deep_view());
    out
}

/// The lines of `s`.
pub fn split_lines(s: &str) -> (r: Vec<String>)
    ensures
        r.deep_view() == lines(s@),
{
    let v = chars_of(s);
    let mut out: Vec<String> = Vec::new();
    let mut from: usize = 0;
    assert(v@.skip(0) == v@);
    assert(out.deep_view() + lines(v@) =~= lines(v@));
    while from < v.len()
        invariant
            from <= v@.len(),
            v@ == s@,
            out.deep_view() + lines(v@.skip(from as int)) == lines(s@),
        decreases v@.len() - from,
    {
        let ghost rest = v@.skip(from as int);
        let ghost before = out.deep_view();
        let k: usize = find_from(&v, '\n', from);
        if k < v.len() {
            let mut end: usize = k;
            if end > from && v[end - 1] == '\r' {
                end = end - 1;
            }
            let piece = string_of(&v, from, end);
            proof {
                assert(piece@ =~= without_cr(rest.take(k - from)));
                assert(rest.skip(k - from + 1) =~= v@.skip(k + 1));
                assert(before + (seq![piece@] + lines(v@.skip(k + 1))) =~= before.push(piece@)
                    + lines(v@.skip(k + 1)));
            }
            out.push(piece);
            assert(out.deep_view() =~= before.push(piece@));
            from = k + 1;
        } else {
            let piece = string_of(&v, from, k);
            assert(piece@ =~= rest);
            out.push(piece);
            assert(out.deep_view() =~= before + seq![rest]);
            from = k;
            proof {
                assert(v@.skip(from as int) =~= Seq::empty());
                assert(lines(v@.skip(from as int)) =~= Seq::empty());
                assert(out.deep_view() + Seq::<Seq<char>>::empty() =~= out.deep_view());
            }
        }
    }
    assert(v@.skip(from as int) =~= Seq::empty());
    assert(out.deep_view() + Seq::<Seq<char>>::empty() =~= out.deep_view());
    out
}

/// `parts` with `sep` between each two of them.
pub fn join_texts(parts: &Vec<String>, sep: &str) -> (r: String)
    ensures
        r@ == join(parts.deep_view(), sep@),
{
    let mut out = String::new();
    let mut i: usize = 0;
    let ghost all = parts.deep_view();
    assert(all.take(0) =~= Seq::empty());
    while i < parts.len()
        invariant
            i <= parts@.len(),
            all == parts.deep_view(),
            out@ == join(all.take(i as int), sep@),
        decreases parts@.len() - i,
    {
        proof {
            assert(all.take(i + 1).drop_last() =~= all.take(i as int));
            assert(all.take(i + 1).last() == parts@[i as int]@);
        }
        if i > 0 {
            out.append(sep);
        }
        out.append(&parts[i]);
        if i == 0 {
            assert(out@ =~= parts@[0]@);
        }
        i = i + 1;
    }
    assert(all.take(i as int) =~= all);
    out
}

} // verus!
