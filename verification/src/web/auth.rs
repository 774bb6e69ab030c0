//! Validation of the `initData` with which Telegram signs a Mini App's requests.

use vstd::prelude::*;
use vstd::utf8::encode_utf8;

use crate::outside::{
    clock_nanos, form_pairs, form_parse, hex_bytes, hex_decode, hmac_code, hmac_matches, hmac_sha256,
};
use crate::text::chars::text_eq;
use crate::text::number::{decimal, is_number, parse_u64, read_u64, u64_reads_back};
use crate::text::order::{
    in_order, insert_by, sort_by, sort_by_sorts, sort_texts, sorted, sorted_ignores_order, text_le,
};
use crate::text::split::{join, join_texts, joining_undoes_splitting};

verus! {

/// How long signed data stays valid, in seconds.
pub const MAX_AGE_SECS: u64 = 86400;

/// The last second that the system clock can hold.
pub const LAST_SECOND: u64 = 0x7fff_ffff_ffff_ffff;

/// The Telegram user on whose behalf the Mini App acts.
#[derive(Debug)]
pub struct WebAppUser {
    pub id: u64,
    pub username: Option<String>,
    pub first_name: String,
}

/// Why signed data was refused.
#[derive(Debug, Clone, Copy, PartialEq, Eq, Structural)]
pub enum AuthError {
    Malformed,
    BadSignature,
    Expired,
}

/// The value of the last pair with the name `name`.
pub open spec fn last_value(pairs: Seq<(Seq<char>, Seq<char>)>, name: Seq<char>) -> Option<Seq<char>>
    decreases pairs.len(),
{
    if pairs.len() == 0 {
        None
    } else if pairs.last().0 == name {
        Some(pairs.last().1)
    } else {
        last_value(pairs.drop_last(), name)
    }
}

/// A pair as a line of the signed text.
pub open spec fn line_of(pair: (Seq<char>, Seq<char>)) -> Seq<char> {
    pair.0 + "="@ + pair.1
}

/// The lines of every pair but the hash.
pub open spec fn signed_lines(pairs: Seq<(Seq<char>, Seq<char>)>) -> Seq<Seq<char>>
    decreases pairs.len(),
{
    if pairs.len() == 0 {
        Seq::empty()
    } else if pairs.last().0 == "hash"@ {
        signed_lines(pairs.drop_last())
    } else {
        signed_lines(pairs.drop_last()).push(line_of(pairs.last()))
    }
}

/// The text that Telegram signs: the lines in dictionary order.
pub open spec fn data_check_string(pairs: Seq<(Seq<char>, Seq<char>)>) -> Seq<char> {
    join(sorted(signed_lines(pairs)), "\n"@)
}

/// The key with which Telegram signs for a bot.
pub open spec fn secret_key(bot_token: Seq<char>) -> Seq<u8> {
    hmac_sha256(encode_utf8("WebAppData"@), encode_utf8(bot_token))
}

/// The signature that belongs to the pairs.
pub open spec fn signature(pairs: Seq<(Seq<char>, Seq<char>)>, bot_token: Seq<char>) -> Seq<u8> {
    hmac_sha256(secret_key(bot_token), encode_utf8(data_check_string(pairs)))
}

/// The second at which the pairs were signed.
pub open spec fn signed_at(pairs: Seq<(Seq<char>, Seq<char>)>) -> Option<u64> {
    match last_value(pairs, "auth_date"@) {
        Some(v) => match read_u64(v) {
            Some(secs) => if secs <= LAST_SECOND {
                Some(secs)
            } else {
                None
            },
            None => None,
        },
        None => None,
    }
}

/// The hash that came with the pairs.
pub open spec fn given_hash(pairs: Seq<(Seq<char>, Seq<char>)>) -> Option<Seq<u8>> {
    match last_value(pairs, "hash"@) {
        Some(v) => hex_bytes(v),
        None => None,
    }
}

/// Whether data signed in the second `secs` is too old at `now_nanos`.
pub open spec fn is_expired(secs: u64, now_nanos: u128) -> bool {
    now_nanos > (secs + MAX_AGE_SECS) * 1_000_000_000
}

/// What becomes of the pairs: the text of the signed user, or the first reason to refuse them.
pub open spec fn checked(
    pairs: Seq<(Seq<char>, Seq<char>)>,
    bot_token: Seq<char>,
    now_nanos: u128,
) -> Result<Seq<char>, AuthError> {
    match given_hash(pairs) {
        None => Err(AuthError::Malformed),
        Some(hash) => if hash != signature(pairs, bot_token) {
            Err(AuthError::BadSignature)
        } else {
            match signed_at(pairs) {
                None => Err(AuthError::Malformed),
                Some(secs) => if is_expired(secs, now_nanos) {
                    Err(AuthError::Expired)
                } else {
                    match last_value(pairs, "user"@) {
                        None => Err(AuthError::Malformed),
                        Some(user) => Ok(user),
                    }
                },
            }
        },
    }
}

/// An outcome with its text as a sequence.
pub open spec fn outcome(r: Result<String, AuthError>) -> Result<Seq<char>, AuthError> {
    match r {
        Ok(s) => Ok(s@),
        Err(e) => Err(e),
    }
}

/// Pairs are accepted only with the signature that belongs to them.
pub proof fn accepted_is_signed(
    pairs: Seq<(Seq<char>, Seq<char>)>,
    bot_token: Seq<char>,
    now_nanos: u128,
)
    requires
        checked(pairs, bot_token, now_nanos) is Ok,
    ensures
        given_hash(pairs) == Some(signature(pairs, bot_token)),
        last_value(pairs, "user"@) == Some(checked(pairs, bot_token, now_nanos)->Ok_0),
{
}

/// Data that ends in its own signature is accepted for a day, and the user in it is handed back.
pub proof fn signed_data_is_accepted(
    pairs: Seq<(Seq<char>, Seq<char>)>,
    hash: Seq<char>,
    bot_token: Seq<char>,
    now_nanos: u128,
)
    requires
        hex_bytes(hash) == Some(signature(pairs, bot_token)),
        signed_at(pairs) is Some,
        !is_expired(signed_at(pairs)->0, now_nanos),
        last_value(pairs, "user"@) is Some,
    ensures
        checked(pairs.push(("hash"@, hash)), bot_token, now_nanos) == Ok::<Seq<char>, AuthError>(
            last_value(pairs, "user"@)->0,
        ),
{
    reveal_strlit("hash");
    reveal_strlit("auth_date");
    reveal_strlit("user");
    let all = pairs.push(("hash"@, hash));
    assert(all.drop_last() =~= pairs);
    assert("hash"@[0] != "user"@[0]);
    assert("hash"@.len() != "auth_date"@.len());
    assert(signed_lines(all) == signed_lines(pairs));
}

/// Data without a hash is malformed, whatever else it holds.
pub proof fn missing_hash_is_malformed(
    pairs: Seq<(Seq<char>, Seq<char>)>,
    bot_token: Seq<char>,
    now_nanos: u128,
)
    requires
        last_value(pairs, "hash"@) is None,
    ensures
        checked(pairs, bot_token, now_nanos) == Err::<Seq<char>, AuthError>(AuthError::Malformed),
{
}

/// Data is accepted until a day after it was signed and refused as expired from then on.
pub proof fn accepted_for_a_day(
    pairs: Seq<(Seq<char>, Seq<char>)>,
    bot_token: Seq<char>,
    earlier: u128,
    later: u128,
)
    requires
        earlier <= later,
    ensures
        checked(pairs, bot_token, later) is Ok ==> checked(pairs, bot_token, earlier) == checked(
            pairs,
            bot_token,
            later,
        ),
        checked(pairs, bot_token, earlier) == Err::<Seq<char>, AuthError>(AuthError::Expired)
            ==> checked(pairs, bot_token, later) == Err::<Seq<char>, AuthError>(AuthError::Expired),
        checked(pairs, bot_token, earlier) is Ok && later > (signed_at(pairs)->0 + MAX_AGE_SECS)
            * 1_000_000_000 ==> checked(pairs, bot_token, later) == Err::<Seq<char>, AuthError>(
            AuthError::Expired,
        ),
{
}

/// The value of a name is the one in the last pair that has the name; a name in no pair has none.
pub proof fn last_pair_counts(pairs: Seq<(Seq<char>, Seq<char>)>, name: Seq<char>, i: int)
    requires
        -1 <= i < pairs.len(),
        i >= 0 ==> pairs[i].0 == name,
        forall|j: int| i < j < pairs.len() ==> (#[trigger] pairs[j]).0 != name,
    ensures
        last_value(pairs, name) == if i >= 0 {
            Some(pairs[i].1)
        } else {
            None
        },
    decreases pairs.len(),
{
    if i < pairs.len() - 1 {
        assert(pairs[pairs.len() - 1].0 != name);
        let rest = pairs.drop_last();
        assert forall|j: int| i < j < rest.len() implies (#[trigger] rest[j]).0 != name by {
            assert(pairs[j].0 != name);
        }
        last_pair_counts(rest, name, i);
    }
}

/// Every second up to the end of the clock that stands in the date, in decimal notation, is the
/// second of the signature. Without a date, or with one that is no number, there is none.
pub proof fn date_is_the_signing_second(pairs: Seq<(Seq<char>, Seq<char>)>, n: u64)
    ensures
        last_value(pairs, "auth_date"@) == Some(decimal(n as nat)) ==> signed_at(pairs) == if n
            <= i64::MAX {
            Some(n)
        } else {
            None
        },
        last_value(pairs, "auth_date"@) is None ==> signed_at(pairs) is None,
        last_value(pairs, "auth_date"@) matches Some(v) ==> (!is_number(v) && !(v.len() > 0 && v[0]
            == '+') ==> signed_at(pairs) is None),
{
    u64_reads_back(n);
}

/// Pairs with their own signature, the date `n` and a user are accepted at every moment up to a day
/// after `n`, and that user is handed back; at every later moment they are expired.
pub proof fn signed_user_is_accepted_for_a_day(
    pairs: Seq<(Seq<char>, Seq<char>)>,
    bot_token: Seq<char>,
    n: u64,
    user: Seq<char>,
    now_nanos: u128,
)
    requires
        given_hash(pairs) == Some(signature(pairs, bot_token)),
        last_value(pairs, "auth_date"@) == Some(decimal(n as nat)),
        n <= i64::MAX,
        last_value(pairs, "user"@) == Some(user),
    ensures
        now_nanos <= (n + 24 * 60 * 60) * 1_000_000_000 ==> checked(pairs, bot_token, now_nanos)
            == Ok::<Seq<char>, AuthError>(user),
        now_nanos > (n + 24 * 60 * 60) * 1_000_000_000 ==> checked(pairs, bot_token, now_nanos)
            == Err::<Seq<char>, AuthError>(AuthError::Expired),
{
    date_is_the_signing_second(pairs, n);
}

/// Any other hash than the signature that belongs to the pairs is refused as such, whatever the
/// date and the user are; so is no hash, or one that is not hexadecimal, as malformed.
pub proof fn wrong_hash_is_refused(
    pairs: Seq<(Seq<char>, Seq<char>)>,
    bot_token: Seq<char>,
    now_nanos: u128,
)
    requires
        given_hash(pairs) != Some(signature(pairs, bot_token)),
    ensures
        checked(pairs, bot_token, now_nanos) == Err::<Seq<char>, AuthError>(
            if given_hash(pairs) is Some {
                AuthError::BadSignature
            } else {
                AuthError::Malformed
            },
        ),
        last_value(pairs, "hash"@) is None ==> given_hash(pairs) is None,
        last_value(pairs, "hash"@) matches Some(v) ==> given_hash(pairs) == hex_bytes(v),
{
}

/// Signed pairs without a date or without a user are malformed.
pub proof fn signed_pairs_need_date_and_user(
    pairs: Seq<(Seq<char>, Seq<char>)>,
    bot_token: Seq<char>,
    now_nanos: u128,
)
    requires
        given_hash(pairs) == Some(signature(pairs, bot_token)),
        last_value(pairs, "auth_date"@) is None || (last_value(pairs, "user"@) is None
            && !(checked(pairs, bot_token, now_nanos) == Err::<Seq<char>, AuthError>(
            AuthError::Expired,
        ))),
    ensures
        checked(pairs, bot_token, now_nanos) == Err::<Seq<char>, AuthError>(AuthError::Malformed),
{
}

proof fn signed_lines_hold(pairs: Seq<(Seq<char>, Seq<char>)>, i: int)
    requires
        0 <= i < pairs.len(),
        pairs[i].0 != "hash"@,
    ensures
        signed_lines(pairs).contains(pairs[i].0 + "="@ + pairs[i].1),
    decreases pairs.len(),
{
    let line = pairs[i].0 + "="@ + pairs[i].1;
    let rest = signed_lines(pairs.drop_last());
    if i == pairs.len() - 1 {
        assert(signed_lines(pairs)[rest.len() as int] == line);
    } else {
        signed_lines_hold(pairs.drop_last(), i);
        let k = choose|k: int| 0 <= k < rest.len() && rest[k] == line;
        assert(signed_lines(pairs)[k] == line);
    }
}

/// The signed text is made of lines in dictionary order: `name=value` of every pair but the hash,
/// and nothing else; and the signature is the code of that text under the key of the bot.
pub proof fn every_pair_is_signed(pairs: Seq<(Seq<char>, Seq<char>)>, bot_token: Seq<char>)
    ensures
        signature(pairs, bot_token) == hmac_sha256(
            hmac_sha256(encode_utf8("WebAppData"@), encode_utf8(bot_token)),
            encode_utf8(join(sorted(signed_lines(pairs)), "\n"@)),
        ),
        forall|i: int|
            0 <= i < pairs.len() && (#[trigger] pairs[i]).0 != "hash"@ ==> signed_lines(
                pairs,
            ).contains(pairs[i].0 + "="@ + pairs[i].1),
        signed_lines(pairs).len() == pairs.filter(
            |p: (Seq<char>, Seq<char>)| p.0 != "hash"@,
        ).len(),
        in_order(sorted(signed_lines(pairs)), |t: Seq<char>| t),
        sorted(signed_lines(pairs)).to_multiset() == signed_lines(pairs).to_multiset(),
    decreases pairs.len(),
{
    let named = |p: (Seq<char>, Seq<char>)| p.0 != "hash"@;
    sort_by_sorts(signed_lines(pairs), |t: Seq<char>| t);
    assert forall|i: int|
        0 <= i < pairs.len() && (#[trigger] pairs[i]).0 != "hash"@ implies signed_lines(
        pairs,
    ).contains(pairs[i].0 + "="@ + pairs[i].1) by {
        signed_lines_hold(pairs, i);
    }
    reveal(Seq::filter);
    if pairs.len() > 0 {
        every_pair_is_signed(pairs.drop_last(), bot_token);
    }
}

/// Whether no name stands in two pairs.
pub open spec fn names_differ(pairs: Seq<(Seq<char>, Seq<char>)>) -> bool {
    forall|i: int, j: int|
        0 <= i < j < pairs.len() ==> (#[trigger] pairs[i]).0 != (#[trigger] pairs[j]).0
}

proof fn lemma_last_value(pairs: Seq<(Seq<char>, Seq<char>)>, name: Seq<char>)
    requires
        names_differ(pairs),
    ensures
        forall|i: int|
            0 <= i < pairs.len() && (#[trigger] pairs[i]).0 == name ==> last_value(pairs, name)
                == Some(pairs[i].1),
        last_value(pairs, name) is Some ==> exists|i: int|
            0 <= i < pairs.len() && (#[trigger] pairs[i]).0 == name,
    decreases pairs.len(),
{
    if pairs.len() > 0 {
        let rest = pairs.drop_last();
        lemma_last_value(rest, name);
        if pairs.last().0 == name {
            assert(pairs[pairs.len() - 1].0 == name);
        } else {
            assert forall|i: int|
                0 <= i < pairs.len() && (#[trigger] pairs[i]).0 == name implies last_value(
                pairs,
                name,
            ) == Some(pairs[i].1) by {
                assert(rest[i] == pairs[i]);
            }
            if last_value(rest, name) is Some {
                let i = choose|i: int| 0 <= i < rest.len() && (#[trigger] rest[i]).0 == name;
                assert(pairs[i].0 == name);
            }
        }
    }
}

/// Telegram signs with the key that belongs to the token: of one pair, its name, an equals sign and
/// its value; of two, both of these lines in dictionary order; and of the hash nothing.
pub proof fn lines_are_signed_with_the_key_of_the_token(
    a: (Seq<char>, Seq<char>),
    b: (Seq<char>, Seq<char>),
    hash: Seq<char>,
    bot_token: Seq<char>,
)
    requires
        a.0 != "hash"@,
        b.0 != "hash"@,
        text_le(a.0 + "="@ + a.1, b.0 + "="@ + b.1),
    ensures
        ({
            let key = hmac_sha256(encode_utf8("WebAppData"@), encode_utf8(bot_token));
            let first = a.0 + "="@ + a.1;
            let second = b.0 + "="@ + b.1;
            &&& signature(seq![a], bot_token) == hmac_sha256(key, encode_utf8(first))
            &&& signature(seq![a, b], bot_token) == hmac_sha256(
                key,
                encode_utf8(first + "\n"@ + second),
            )
            &&& signature(seq![a, ("hash"@, hash)], bot_token) == hmac_sha256(
                key,
                encode_utf8(first),
            )
        }),
{
    reveal_with_fuel(signed_lines, 3);
    reveal_with_fuel(sort_by, 3);
    reveal_with_fuel(insert_by, 2);
    reveal_with_fuel(join, 3);
    let first = a.0 + "="@ + a.1;
    let second = b.0 + "="@ + b.1;
    assert(seq![a].drop_last() =~= seq![]);
    assert(seq![a, b].drop_last() =~= seq![a]);
    assert(seq![a, ("hash"@, hash)].drop_last() =~= seq![a]);
    assert(signed_lines(seq![a]) =~= seq![first]);
    assert(signed_lines(seq![a, b]) =~= seq![first, second]);
    assert(signed_lines(seq![a, ("hash"@, hash)]) =~= seq![first]);
    assert(seq![first].drop_last() =~= seq![]);
    assert(seq![first, second].drop_last() =~= seq![first]);
    assert(sorted(seq![first]) =~= seq![first]);
    assert(sorted(seq![first, second]) =~= seq![first, second]);
    joining_undoes_splitting(seq![], ' ', first, second, "\n"@);
}

proof fn lemma_signed_lines_remove(pairs: Seq<(Seq<char>, Seq<char>)>, i: int)
    requires
        0 <= i < pairs.len(),
    ensures
        signed_lines(pairs).to_multiset() == if pairs[i].0 == "hash"@ {
            signed_lines(pairs.remove(i)).to_multiset()
        } else {
            signed_lines(pairs.remove(i)).to_multiset().insert(line_of(pairs[i]))
        },
    decreases pairs.len(),
{
    broadcast use vstd::seq_lib::group_to_multiset_ensures;

    let last = pairs.last();
    if i == pairs.len() - 1 {
        assert(pairs.remove(i) =~= pairs.drop_last());
    } else {
        lemma_signed_lines_remove(pairs.drop_last(), i);
        assert(pairs.remove(i).drop_last() =~= pairs.drop_last().remove(i));
        assert(pairs.remove(i).last() == last);
        let a = signed_lines(pairs.drop_last()).to_multiset();
        let b = signed_lines(pairs.drop_last().remove(i)).to_multiset();
        if last.0 != "hash"@ {
            assert(signed_lines(pairs).to_multiset() == a.insert(line_of(last)));
            assert(signed_lines(pairs.remove(i)).to_multiset() == b.insert(line_of(last)));
            assert(b.insert(line_of(pairs[i])).insert(line_of(last)) =~= b.insert(
                line_of(last),
            ).insert(line_of(pairs[i])));
        }
    }
}

proof fn lemma_signed_lines_multiset(
    a: Seq<(Seq<char>, Seq<char>)>,
    b: Seq<(Seq<char>, Seq<char>)>,
)
    requires
        a.to_multiset() == b.to_multiset(),
    ensures
        signed_lines(a).to_multiset() == signed_lines(b).to_multiset(),
    decreases a.len(),
{
    broadcast use vstd::seq_lib::group_to_multiset_ensures;

    assert(a.to_multiset().len() == b.to_multiset().len());
    if a.len() > 0 {
        let x = a.last();
        assert(a.contains(x));
        assert(b.to_multiset().count(x) > 0);
        let i = choose|i: int| 0 <= i < b.len() && b[i] == x;
        assert(a.drop_last().push(x) =~= a);
        assert(a.drop_last().to_multiset() =~= a.to_multiset().remove(x));
        assert(b.remove(i).to_multiset() =~= b.to_multiset().remove(x));
        lemma_signed_lines_multiset(a.drop_last(), b.remove(i));
        lemma_signed_lines_remove(b, i);
        lemma_signed_lines_remove(a, a.len() - 1);
        assert(a.remove(a.len() - 1) =~= a.drop_last());
    } else {
        a.to_multiset_ensures();
        b.to_multiset_ensures();
        assert(a =~= b);
    }
}

/// The order in which the pairs arrive does not matter, as long as no name comes twice.
pub proof fn order_does_not_matter(
    a: Seq<(Seq<char>, Seq<char>)>,
    b: Seq<(Seq<char>, Seq<char>)>,
    bot_token: Seq<char>,
    now_nanos: u128,
)
    requires
        a.to_multiset() == b.to_multiset(),
        names_differ(a),
        names_differ(b),
    ensures
        checked(a, bot_token, now_nanos) == checked(b, bot_token, now_nanos),
{
    broadcast use vstd::seq_lib::group_to_multiset_ensures;

    lemma_signed_lines_multiset(a, b);
    sorted_ignores_order(signed_lines(a), signed_lines(b));
    assert forall|name: Seq<char>| #[trigger] last_value(a, name) == last_value(b, name) by {
        lemma_last_value(a, name);
        lemma_last_value(b, name);
        if last_value(a, name) is Some {
            let i = choose|i: int| 0 <= i < a.len() && (#[trigger] a[i]).0 == name;
            assert(a.contains(a[i]));
            assert(b.to_multiset().count(a[i]) > 0);
            let j = choose|j: int| 0 <= j < b.len() && b[j] == a[i];
            assert(b[j].0 == name);
        } else if last_value(b, name) is Some {
            let j = choose|j: int| 0 <= j < b.len() && (#[trigger] b[j]).0 == name;
            assert(b.contains(b[j]));
            assert(a.to_multiset().count(b[j]) > 0);
            let i = choose|i: int| 0 <= i < a.len() && a[i] == b[j];
            assert(a[i].0 == name);
        }
    }
    assert(last_value(a, "hash"@) == last_value(b, "hash"@));
    assert(last_value(a, "auth_date"@) == last_value(b, "auth_date"@));
    assert(last_value(a, "user"@) == last_value(b, "user"@));
}

/// HMAC with SHA-256 of `message` under `key`.
pub fn sign(key: &[u8], message: &[u8]) -> (r: Vec<u8>)
    ensures
        r@ == hmac_sha256(key@, message@),
{
    hmac_code(key, message)
}

/// Checks the pairs of a Mini App request: their signature for the bot with the token `bot_token`,
/// then their age at `now_nanos`, in nanoseconds since the start of 1970. Hands back the text of
/// the signed user. A date that the system clock cannot hold is no date.
pub fn check_pairs(pairs: &Vec<(String, String)>, bot_token: &str, now_nanos: u128) -> (r: Result<
    String,
    AuthError,
>)
    ensures
        outcome(r) == checked(pairs.deep_view(), bot_token@, now_nanos),
{
    let ghost all = pairs.deep_view();
    let mut hash: Option<String> = None;
    let mut auth_date: Option<u64> = None;
    let mut user: Option<String> = None;
    let mut lines: Vec<String> = Vec::new();
    let mut i: usize = 0;
    assert(all.take(0) =~= Seq::empty());
    assert(lines.deep_view() =~= Seq::empty());
    proof {
        reveal_strlit("hash");
        reveal_strlit("auth_date");
        reveal_strlit("user");
    }
    while i < pairs.len()
        invariant
            i <= pairs@.len(),
            all == pairs.deep_view(),
            "hash"@.len() == 4,
            "auth_date"@.len() == 9,
            "user"@.len() == 4,
            "hash"@[0] == 'h',
            "user"@[0] == 'u',
            hash.deep_view() == last_value(all.take(i as int), "hash"@),
            user.deep_view() == last_value(all.take(i as int), "user"@),
            auth_date == signed_at(all.take(i as int)),
            lines.deep_view() == signed_lines(all.take(i as int)),
        decreases pairs@.len() - i,
    {
        let ghost before = lines.deep_view();
        let key = &pairs[i].0;
        let value = &pairs[i].1;
        proof {
            assert(all.take(i + 1).drop_last() =~= all.take(i as int));
            assert(all.take(i + 1).last() == (key@, value@));
        }
        if text_eq(key, "hash") {
            hash = Some(value.clone());
        } else {
            if text_eq(key, "auth_date") {
                auth_date = match parse_u64(value) {
                    Some(secs) => if secs <= LAST_SECOND {
                        Some(secs)
                    } else {
                        None
                    },
                    None => None,
                };
            }
            if text_eq(key, "user") {
                user = Some(value.clone());
            }
            let mut line = key.clone();
            line.append("=");
            line.append(value);
            lines.push(line);
            assert(lines.deep_view() =~= before.push(line_of((key@, value@))));
        }
        i = i + 1;
    }
    assert(all.take(i as int) =~= all);

    let hash = match hash {
        Some(text) => match hex_decode(&text) {
            Some(bytes) => bytes,
            None => return Err(AuthError::Malformed),
        },
        None => return Err(AuthError::Malformed),
    };
    assert(hash.deep_view() =~= hash@);
    let text = join_texts(&sort_texts(&lines), "\n");
    let secret = sign("WebAppData".as_bytes(), bot_token.as_bytes());
    if !hmac_matches(secret.as_slice(), text.as_str().as_bytes(), hash.as_slice()) {
        return Err(AuthError::BadSignature);
    }
    match auth_date {
        None => Err(AuthError::Malformed),
        Some(secs) => if now_nanos > (secs as u128 + MAX_AGE_SECS as u128) * 1_000_000_000 {
            Err(AuthError::Expired)
        } else {
            match user {
                None => Err(AuthError::Malformed),
                Some(text) => Ok(text),
            }
        },
    }
}

/// Checks the signature of `init_data` and its age at `now_nanos`, and hands back the text of the
/// signed user.
pub fn verify_at(init_data: &str, bot_token: &str, now_nanos: u128) -> (r: Result<
    String,
    AuthError,
>)
    ensures
        outcome(r) == checked(form_pairs(init_data@), bot_token@, now_nanos),
{
    check_pairs(&form_parse(init_data), bot_token, now_nanos)
}

/// Checks the signature of `init_data` and its age now, and hands back the text of the signed user.
pub fn verify_init_data(init_data: &str, bot_token: &str) -> (r: Result<String, AuthError>)
    ensures
        exists|now_nanos: u128|
            outcome(r) == #[trigger] checked(form_pairs(init_data@), bot_token@, now_nanos),
{
    verify_at(init_data, bot_token, clock_nanos())
}

/// The verified user: `parsed` is what the signed text reads as, if it reads as a user.
pub fn verified_user(verified: Result<String, AuthError>, parsed: Option<WebAppUser>) -> (r: Result<
    WebAppUser,
    AuthError,
>)
    ensures
        r == match verified {
            Err(e) => Err::<WebAppUser, AuthError>(e),
            Ok(_) => match parsed {
                Some(user) => Ok(user),
                None => Err(AuthError::Malformed),
            },
        },
{
    match verified {
        Err(e) => Err(e),
        Ok(_) => match parsed {
            Some(user) => Ok(user),
            None => Err(AuthError::Malformed),
        },
    }
}

} // verus!
