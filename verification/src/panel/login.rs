//! Logins.

use vstd::prelude::*;

use crate::text::chars::{
    all_ascii, ascii_lower, is_whitespace, lowercased, strip_leading, strip_leading_char, trim,
    trim_end, trim_start, trim_takes_the_whitespace_around, trim_text,
};

verus! {

/// A login without surrounding whitespace and leading `@`, in lower case.
pub open spec fn normalized(login: Seq<char>) -> Seq<char> {
    lowercased(strip_leading(trim(login), '@'))
}

/// A login finds the same with `@` before it, unless it starts with whitespace.
pub proof fn at_sign_does_not_matter(login: Seq<char>)
    requires
        login.len() > 0 ==> !is_whitespace(login[0]),
    ensures
        normalized(seq!['@'] + login) == normalized(login),
{
    let named = seq!['@'] + login;
    assert(trim_start(login) == login);
    assert(trim_start(named) == named);
    trim_end_after_at(login);
    assert((seq!['@'] + trim_end(login)).drop_first() =~= trim_end(login));
}

proof fn trim_end_after_at(s: Seq<char>)
    ensures
        trim_end(seq!['@'] + s) == seq!['@'] + trim_end(s),
    decreases s.len(),
{
    let named = seq!['@'] + s;
    if s.len() > 0 && is_whitespace(s.last()) {
        assert(named.drop_last() =~= seq!['@'] + s.drop_last());
        trim_end_after_at(s.drop_last());
    } else if s.len() == 0 {
        assert(named =~= seq!['@']);
        assert(trim_end(s) =~= seq![]);
    } else {
        assert(named.last() == s.last());
    }
}

/// Logins are compared without what stands around them: whitespace and the `@` before them.
pub proof fn surroundings_do_not_matter(a: Seq<char>, login: Seq<char>, b: Seq<char>)
    requires
        forall|i: int| 0 <= i < a.len() ==> is_whitespace(#[trigger] a[i]),
        forall|i: int| 0 <= i < b.len() ==> is_whitespace(#[trigger] b[i]),
        login.len() > 0,
        !is_whitespace(login[0]),
        !is_whitespace(login.last()),
        login[0] != '@',
    ensures
        normalized(login) == lowercased(login),
        normalized(a + login + b) == lowercased(login),
        normalized(a + (seq!['@'] + login) + b) == lowercased(login),
{
    let named = seq!['@'] + login;
    trim_takes_the_whitespace_around(a, login, b);
    trim_takes_the_whitespace_around(seq![], login, seq![]);
    assert(seq![] + login + seq![] =~= login);
    assert(named.last() == login.last());
    trim_takes_the_whitespace_around(a, named, b);
    assert(named.drop_first() =~= login);
}

/// Panel logins are Telegram usernames: they are compared in lower case and without `@`.
pub fn normalize_login(login: &str) -> (r: String)
    ensures
        r@ == normalized(login@),
        all_ascii(strip_leading(trim(login@), '@')) ==> r@ == strip_leading(
            trim(login@),
            '@',
        ).map_values(|c: char| ascii_lower(c)),
{
    strip_leading_char(&trim_text(login), '@').to_lowercase()
}

} // verus!
