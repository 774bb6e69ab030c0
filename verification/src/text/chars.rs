//! Trimming, prefixes, searching and replacing.

use vstd::prelude::*;

verus! {

/// Whether `c` has Unicode's `White_Space` property.
pub open spec fn is_whitespace(c: char) -> bool {
    ||| 0x9 <= c as u32 <= 0xd
    ||| c as u32 == 0x20
    ||| c as u32 == 0x85
    ||| c as u32 == 0xa0
    ||| c as u32 == 0x1680
    ||| 0x2000 <= c as u32 <= 0x200a
    ||| c as u32 == 0x2028
    ||| c as u32 == 0x2029
    ||| c as u32 == 0x202f
    ||| c as u32 == 0x205f
    ||| c as u32 == 0x3000
}

/// `s` without its leading whitespace.
pub open spec fn trim_start(s: Seq<char>) -> Seq<char>
    decreases s.len(),
{
    if s.len() > 0 && is_whitespace(s[0]) {
        trim_start(s.drop_first())
    } else {
        s
    }
}

/// `s` without its trailing whitespace.
pub open spec fn trim_end(s: Seq<char>) -> Seq<char>
    decreases s.len(),
{
    if s.len() > 0 && is_whitespace(s.last()) {
        trim_end(s.drop_last())
    } else {
        s
    }
}

/// `s` without leading and trailing whitespace.
pub open spec fn trim(s: Seq<char>) -> Seq<char> {
    trim_end(trim_start(s))
}

/// `s` without the copies of `c` that it starts with.
pub open spec fn strip_leading(s: Seq<char>, c: char) -> Seq<char>
    decreases s.len(),
{
    if s.len() > 0 && s[0] == c {
        strip_leading(s.drop_first(), c)
    } else {
        s
    }
}

/// `s` without the copies of `c` that it ends with.
pub open spec fn strip_trailing(s: Seq<char>, c: char) -> Seq<char>
    decreases s.len(),
{
    if s.len() > 0 && s.last() == c {
        strip_trailing(s.drop_last(), c)
    } else {
        s
    }
}

/// Whether `p` stands in `s` at position `i`.
pub open spec fn occurs_at(s: Seq<char>, p: Seq<char>, i: int) -> bool {
    0 <= i && i + p.len() <= s.len() && s.subrange(i, i + p.len()) == p
}

/// Whether `s` starts with `p`.
pub open spec fn starts_with(s: Seq<char>, p: Seq<char>) -> bool {
    occurs_at(s, p, 0)
}

/// Whether `s` ends with the character `c`.
pub open spec fn ends_with_char(s: Seq<char>, c: char) -> bool {
    s.len() > 0 && s.last() == c
}

/// Whether `p` stands somewhere in `s`.
pub open spec fn contains(s: Seq<char>, p: Seq<char>) -> bool {
    exists|i: int| occurs_at(s, p, i)
}

/// `s` with every non-overlapping occurrence of `p`, taken from the left, replaced by `with`.
pub open spec fn replace(s: Seq<char>, p: Seq<char>, with: Seq<char>) -> Seq<char>
    decreases s.len(),
{
    if s.len() == 0 || p.len() == 0 {
        s
    } else if starts_with(s, p) {
        with + replace(s.skip(p.len() as int), p, with)
    } else {
        seq![s[0]] + replace(s.drop_first(), p, with)
    }
}

/// `String::push` appends one character.
pub assume_specification[ String::push ](s: &mut String, c: char)
    ensures
        final(s)@ == old(s)@.push(c),
;

/// What `str::to_lowercase` makes of a string.
pub uninterp spec fn lowercased(s: Seq<char>) -> Seq<char>;

/// The lower case letter of an ASCII upper case one; any other character as it is.
pub open spec fn ascii_lower(c: char) -> char {
    if 'A' <= c && c <= 'Z' {
        (c as u32 + 32) as char
    } else {
        c
    }
}

/// Whether every character of `s` is ASCII.
pub open spec fn all_ascii(s: Seq<char>) -> bool {
    forall|i: int| 0 <= i < s.len() ==> (#[trigger] s[i] as u32) < 0x80
}

/// `str::to_lowercase` depends on the string alone; on an ASCII string it lowers `A` to `Z` and
/// keeps every other character.
pub assume_specification[ str::to_lowercase ](s: &str) -> (r: String)
    ensures
        r@ == lowercased(s@),
        all_ascii(s@) ==> r@ == s@.map_values(|c: char| ascii_lower(c)),
;

/// What is left after trimming the end does not end with whitespace.
pub proof fn trim_end_ends(s: Seq<char>)
    ensures
        trim_end(s).len() <= s.len(),
        trim_end(s) == s.take(trim_end(s).len() as int),
        trim_end(s).len() > 0 ==> !is_whitespace(trim_end(s).last()),
    decreases s.len(),
{
    if s.len() > 0 && is_whitespace(s.last()) {
        trim_end_ends(s.drop_last());
        assert(s.drop_last().take(trim_end(s).len() as int) =~= s.take(trim_end(s).len() as int));
    } else {
        assert(s.take(s.len() as int) =~= s);
    }
}

/// A text that starts and ends with other characters than whitespace stays as it is.
pub proof fn trim_keeps(s: Seq<char>)
    requires
        s.len() > 0 ==> !is_whitespace(s[0]) && !is_whitespace(s.last()),
    ensures
        trim(s) == s,
{
}

/// What is left after stripping does not start with the character, and ends as before.
pub proof fn strip_leading_starts(s: Seq<char>, c: char)
    ensures
        strip_leading(s, c).len() > 0 ==> strip_leading(s, c)[0] != c && strip_leading(s, c).last()
            == s.last(),
        strip_leading(s, c).len() <= s.len(),
    decreases s.len(),
{
    if s.len() > 0 && s[0] == c {
        strip_leading_starts(s.drop_first(), c);
    }
}

/// Blanks, tabs and line ends are whitespace, and so is the no-break space; no visible ASCII
/// character is.
pub proof fn blanks_are_whitespace(c: char)
    ensures
        is_whitespace(' '),
        is_whitespace('\t'),
        is_whitespace('\n'),
        is_whitespace('\r'),
        is_whitespace('\u{a0}'),
        0x21 <= c as u32 <= 0x7e ==> !is_whitespace(c),
        0x400 <= c as u32 <= 0x4ff ==> !is_whitespace(c),
{
}

proof fn leading_whitespace_goes(a: Seq<char>, s: Seq<char>)
    requires
        forall|i: int| 0 <= i < a.len() ==> is_whitespace(#[trigger] a[i]),
    ensures
        trim_start(a + s) == trim_start(s),
    decreases a.len(),
{
    if a.len() > 0 {
        assert(is_whitespace((a + s)[0])) by {
            assert(is_whitespace(a[0]));
        }
        assert((a + s).drop_first() =~= a.drop_first() + s);
        leading_whitespace_goes(a.drop_first(), s);
    } else {
        assert(a + s =~= s);
    }
}

proof fn trailing_whitespace_goes(s: Seq<char>, b: Seq<char>)
    requires
        forall|i: int| 0 <= i < b.len() ==> is_whitespace(#[trigger] b[i]),
    ensures
        trim_end(s + b) == trim_end(s),
    decreases b.len(),
{
    if b.len() > 0 {
        assert(is_whitespace((s + b).last())) by {
            assert(is_whitespace(b[b.len() - 1]));
        }
        assert((s + b).drop_last() =~= s + b.drop_last());
        trailing_whitespace_goes(s, b.drop_last());
    } else {
        assert(s + b =~= s);
    }
}

/// Trimming takes the whitespace before and after a text, all of it and nothing else.
pub proof fn trim_takes_the_whitespace_around(a: Seq<char>, s: Seq<char>, b: Seq<char>)
    requires
        forall|i: int| 0 <= i < a.len() ==> is_whitespace(#[trigger] a[i]),
        forall|i: int| 0 <= i < b.len() ==> is_whitespace(#[trigger] b[i]),
        s.len() > 0 ==> !is_whitespace(s[0]) && !is_whitespace(s.last()),
    ensures
        trim(a + s + b) == s,
{
    assert(a + s + b =~= a + (s + b));
    leading_whitespace_goes(a, s + b);
    if s.len() > 0 {
        assert((s + b)[0] == s[0]);
        assert(trim_start(s + b) == s + b);
        trailing_whitespace_goes(s, b);
    } else {
        assert(s + b =~= b + seq![]);
        leading_whitespace_goes(b, seq![]);
        assert(trim(a + s + b) =~= s);
    }
}

/// Stripping takes the copies of a character at one end, all of them and nothing else.
pub proof fn stripping_takes_the_copies_at_one_end(s: Seq<char>, c: char, n: nat)
    ensures
        s.len() == 0 || s[0] != c ==> strip_leading(Seq::new(n, |i: int| c) + s, c) == s,
        s.len() == 0 || s.last() != c ==> strip_trailing(s + Seq::new(n, |i: int| c), c) == s,
    decreases n,
{
    let copies = Seq::new(n, |i: int| c);
    if n > 0 {
        let fewer = Seq::new((n - 1) as nat, |i: int| c);
        stripping_takes_the_copies_at_one_end(s, c, (n - 1) as nat);
        assert((copies + s).drop_first() =~= fewer + s);
        assert((s + copies).drop_last() =~= s + fewer);
    } else {
        assert(copies + s =~= s);
        assert(s + copies =~= s);
    }
}

/// Replacing changes the occurrences and nothing else: what stands before the first one stays, the
/// occurrence itself is replaced, and the same is done with what stands after it.
pub proof fn replacing_changes_the_occurrences(
    before: Seq<char>,
    p: Seq<char>,
    after: Seq<char>,
    with: Seq<char>,
)
    requires
        p.len() > 0,
        forall|i: int| 0 <= i < before.len() ==> #[trigger] before[i] != p[0],
    ensures
        replace(before + p + after, p, with) == before + with + replace(after, p, with),
        replace(before, p, with) == before,
    decreases before.len(),
{
    let s = before + p + after;
    if before.len() > 0 {
        let rest = before.drop_first();
        assert forall|i: int| 0 <= i < rest.len() implies #[trigger] rest[i] != p[0] by {
            assert(before[i + 1] != p[0]);
        }
        replacing_changes_the_occurrences(rest, p, after, with);
        assert(before[0] != p[0]);
        assert(s[0] == before[0]);
        assert(!starts_with(s, p)) by {
            if starts_with(s, p) {
                assert(s.subrange(0, p.len() as int)[0] == p[0]);
            }
        }
        assert(!starts_with(before, p)) by {
            if starts_with(before, p) {
                assert(before.subrange(0, p.len() as int)[0] == p[0]);
            }
        }
        assert(s.drop_first() =~= rest + p + after);
        assert(seq![before[0]] + (rest + with + replace(after, p, with)) =~= before + with
            + replace(after, p, with));
        assert(seq![before[0]] + rest =~= before);
    } else {
        assert(s =~= p + after);
        assert(s.subrange(0, p.len() as int) =~= p);
        assert(s.skip(p.len() as int) =~= after);
        assert(before + with =~= with);
    }
}

/// A text starts with another one exactly where that is a prefix of it.
pub proof fn start_is_a_prefix(s: Seq<char>, p: Seq<char>)
    ensures
        starts_with(s, p) <==> p.is_prefix_of(s),
{
}

/// A text starts with another one exactly where the rest can be put behind that, and holds it
/// exactly where something can be put before and behind it.
pub proof fn starts_and_holds(s: Seq<char>, a: Seq<char>, p: Seq<char>, b: Seq<char>)
    ensures
        starts_with(p + b, p),
        contains(a + p + b, p),
        starts_with(s, p) <==> p.is_prefix_of(s),
        contains(s, p) <==> exists|i: int|
            0 <= i <= s.len() && p.is_prefix_of(#[trigger] s.skip(i)),
{
    assert((p + b).subrange(0, p.len() as int) =~= p);
    let whole = a + p + b;
    assert(whole.subrange(a.len() as int, (a.len() + p.len()) as int) =~= p);
    assert(occurs_at(whole, p, a.len() as int));
    if contains(s, p) {
        let i = choose|i: int| occurs_at(s, p, i);
        assert(s.skip(i).subrange(0, p.len() as int) =~= s.subrange(i, i + p.len()));
        assert(p.is_prefix_of(s.skip(i)));
    }
    if exists|i: int| 0 <= i <= s.len() && p.is_prefix_of(#[trigger] s.skip(i)) {
        let i = choose|i: int| 0 <= i <= s.len() && p.is_prefix_of(#[trigger] s.skip(i));
        assert(s.skip(i).subrange(0, p.len() as int) =~= s.subrange(i, i + p.len()));
        assert(occurs_at(s, p, i));
    }
}

/// The characters of `s`, in order.
pub fn chars_of(s: &str) -> (r: Vec<char>)
    ensures
        r@ == s@,
{
    let mut out: Vec<char> = Vec::new();
    for c in it: s.chars()
        invariant
            out@ == it.seq().take(it.index()),
            it.seq() == s@,
    {
        out.push(c);
    }
    out
}

/// The string made of the characters of `v` from `from` up to `to`.
pub fn string_of(v: &Vec<char>, from: usize, to: usize) -> (r: String)
    requires
        from <= to <= v@.len(),
    ensures
        r@ == v@.subrange(from as int, to as int),
{
    let mut out = String::new();
    let mut i: usize = from;
    while i < to
        invariant
            from <= i <= to <= v@.len(),
            out@ == v@.subrange(from as int, i as int),
        decreases to - i,
    {
        out.push(v[i]);
        i = i + 1;
    }
    out
}

/// Whether two strings have the same characters.
pub fn text_eq(a: &str, b: &str) -> (r: bool)
    ensures
        r == (a@ == b@),
{
    a.to_string() == b.to_string()
}

/// Whether `c` is whitespace.
pub fn char_is_whitespace(c: char) -> (r: bool)
    ensures
        r == is_whitespace(c),
{
    let n: u32 = c as u32;
    (0x9 <= n && n <= 0xd) || n == 0x20 || n == 0x85 || n == 0xa0 || n == 0x1680 || (0x2000 <= n
        && n <= 0x200a) || n == 0x2028 || n == 0x2029 || n == 0x202f || n == 0x205f || n == 0x3000
}

/// `s` without leading and trailing whitespace.
pub fn trim_text(s: &str) -> (r: String)
    ensures
        r@ == trim(s@),
{
    let v = chars_of(s);
    let mut i: usize = 0;
    assert(v@.skip(0) == v@);
    while i < v.len() && char_is_whitespace(v[i])
        invariant
            i <= v@.len(),
            trim_start(v@) == trim_start(v@.skip(i as int)),
        decreases v@.len() - i,
    {
        assert(v@.skip(i as int).drop_first() == v@.skip(i + 1));
        i = i + 1;
    }
    let ghost t = v@.skip(i as int);
    assert(trim_start(v@) == t);
    let mut j: usize = v.len();
    assert(v@.subrange(i as int, j as int) == t);
    while i < j && char_is_whitespace(v[j - 1])
        invariant
            i <= j <= v@.len(),
            trim_end(t) == trim_end(v@.subrange(i as int, j as int)),
        decreases j,
    {
        assert(v@.subrange(i as int, j as int).drop_last() == v@.subrange(i as int, j - 1));
        j = j - 1;
    }
    string_of(&v, i, j)
}

/// `s` without the copies of `c` that it starts with.
pub fn strip_leading_char(s: &str, c: char) -> (r: String)
    ensures
        r@ == strip_leading(s@, c),
{
    let v = chars_of(s);
    let mut i: usize = 0;
    assert(v@.skip(0) == v@);
    while i < v.len() && v[i] == c
        invariant
            i <= v@.len(),
            strip_leading(v@, c) == strip_leading(v@.skip(i as int), c),
        decreases v@.len() - i,
    {
        assert(v@.skip(i as int).drop_first() == v@.skip(i + 1));
        i = i + 1;
    }
    assert(v@.skip(i as int) == v@.subrange(i as int, v@.len() as int));
    string_of(&v, i, v.len())
}

/// `s` without the copies of `c` that it ends with.
pub fn strip_trailing_char(s: &str, c: char) -> (r: String)
    ensures
        r@ == strip_trailing(s@, c),
{
    let v = chars_of(s);
    let mut j: usize = v.len();
    assert(v@.take(j as int) == v@);
    while 0 < j && v[j - 1] == c
        invariant
            j <= v@.len(),
            strip_trailing(v@, c) == strip_trailing(v@.take(j as int), c),
        decreases j,
    {
        assert(v@.take(j as int).drop_last() == v@.take(j - 1));
        j = j - 1;
    }
    assert(v@.take(j as int) == v@.subrange(0, j as int));
    string_of(&v, 0, j)
}

/// Whether `p` stands in `s` at position `i`.
pub fn matches_at(s: &Vec<char>, p: &Vec<char>, i: usize) -> (r: bool)
    ensures
        r == occurs_at(s@, p@, i as int),
{
    if i > s.len() || p.len() > s.len() - i {
        return false;
    }
    let mut k: usize = 0;
    while k < p.len()
        invariant
            k <= p@.len(),
            i + p.len() <= s.len(),
            forall|m: int| 0 <= m < k ==> s@[i + m] == #[trigger] p@[m],
        decreases p@.len() - k,
    {
        if s[i + k] != p[k] {
            assert(s@.subrange(i as int, i + p@.len())[k as int] != p@[k as int]);
            return false;
        }
        k = k + 1;
    }
    assert(s@.subrange(i as int, i + p@.len()) =~= p@);
    true
}

/// Whether `s` starts with `p`.
pub fn has_prefix(s: &str, p: &str) -> (r: bool)
    ensures
        r == starts_with(s@, p@),
{
    matches_at(&chars_of(s), &chars_of(p), 0)
}

/// Whether `s` ends with the character `c`.
pub fn has_last_char(s: &str, c: char) -> (r: bool)
    ensures
        r == ends_with_char(s@, c),
{
    let v = chars_of(s);
    v.len() > 0 && v[v.len() - 1] == c
}

/// Whether `p` stands somewhere in `s`.
pub fn has_text(s: &str, p: &str) -> (r: bool)
    ensures
        r == contains(s@, p@),
{
    let v = chars_of(s);
    let w = chars_of(p);
    let mut i: usize = 0;
    while i < v.len()
        invariant
            i <= v@.len(),
            v@ == s@,
            w@ == p@,
            forall|m: int| 0 <= m < i ==> !occurs_at(s@, p@, m),
        decreases v@.len() - i,
    {
        if matches_at(&v, &w, i) {
            return true;
        }
        i = i + 1;
    }
    matches_at(&v, &w, i)
}

/// `s` with every non-overlapping occurrence of `p`, taken from the left, replaced by `with`.
pub fn replace_text(s: &str, p: &str, with: &str) -> (r: String)
    requires
        p@.len() > 0,
    ensures
        r@ == replace(s@, p@, with@),
{
    let v = chars_of(s);
    let w = chars_of(p);
    let mut out = String::new();
    let mut i: usize = 0;
    assert(v@.skip(0) == v@);
    while i < v.len()
        invariant
            i <= v@.len(),
            v@ == s@,
            w@ == p@,
            p@.len() > 0,
            replace(s@, p@, with@) == out@ + replace(s@.skip(i as int), p@, with@),
        decreases v@.len() - i,
    {
        let ghost rest = s@.skip(i as int);
        if matches_at(&v, &w, i) {
            proof {
                assert(rest.subrange(0, p@.len() as int) =~= s@.subrange(i as int, i + p@.len()));
                assert(rest.skip(p@.len() as int) =~= s@.skip(i + p@.len()));
                assert(out@ + (with@ + replace(s@.skip(i + p@.len()), p@, with@)) =~= (out@ + with@)
                    + replace(s@.skip(i + p@.len()), p@, with@));
            }
            out.append(with);
            i = i + w.len();
        } else {
            proof {
                if starts_with(rest, p@) {
                    assert(rest.subrange(0, p@.len() as int) =~= s@.subrange(
                        i as int,
                        i + p@.len(),
                    ));
                }
                assert(rest.drop_first() =~= s@.skip(i + 1));
                assert(out@ + (seq![s@[i as int]] + replace(s@.skip(i + 1), p@, with@))
                    =~= out@.push(s@[i as int]) + replace(s@.skip(i + 1), p@, with@));
            }
            out.push(v[i]);
            i = i + 1;
        }
    }
    assert(s@.skip(i as int) =~= Seq::empty());
    out
}

/// What failed, with the reason.
pub open spec fn with_cause(failure: Seq<char>, cause: Seq<char>) -> Seq<char> {
    failure + ": "@ + cause
}

/// A text is a prefix of itself with more behind it, and what was put behind it is a suffix.
pub proof fn parts_stand_at_the_ends(a: Seq<char>, b: Seq<char>, c: Seq<char>)
    ensures
        a.is_prefix_of(a + b),
        b.is_suffix_of(a + b),
        a + b == a + c ==> b == c,
{
    assert(a =~= (a + b).subrange(0, a.len() as int));
    assert(b =~= (a + b).subrange(a.len() as int, (a + b).len() as int));
    assert(c =~= (a + c).subrange(a.len() as int, (a + c).len() as int));
}

/// What failed stands before the colon, and the reason behind it.
pub proof fn cause_stands_behind_the_failure(failure: Seq<char>, cause: Seq<char>)
    ensures
        (failure + ": "@).is_prefix_of(with_cause(failure, cause)),
        cause.is_suffix_of(with_cause(failure, cause)),
        with_cause(failure, cause).len() == failure.len() + 2 + cause.len(),
{
    reveal_strlit(": ");
    parts_stand_at_the_ends(failure + ": "@, cause, cause);
}

/// What failed, with the reason.
pub fn failure_with_cause(failure: &str, cause: &str) -> (r: String)
    ensures
        r@ == with_cause(failure@, cause@),
{
    let mut text = failure.to_string();
    text.append(": ");
    text.append(cause);
    text
}

} // verus!
