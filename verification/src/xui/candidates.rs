//! Connection URLs in a panel's reply, and the choice among them.

use vstd::prelude::*;

use crate::json::{
    entry_is_smaller, entry_models, item_is_smaller, key_index, models, Json, JsonModel,
};
use crate::text::chars::{
    contains, has_prefix, has_text, lowercased, starts_and_holds, starts_with, text_eq, trim,
    trim_text,
};

verus! {

/// The text without surrounding whitespace, in lower case.
pub open spec fn folded(s: Seq<char>) -> Seq<char> {
    lowercased(trim(s))
}

/// The text starts with the scheme of a proxy configuration.
pub open spec fn has_config_scheme(s: Seq<char>) -> bool {
    starts_with(s, "vless://"@) || starts_with(s, "vmess://"@) || starts_with(s, "trojan://"@)
        || starts_with(s, "ss://"@) || starts_with(s, "hysteria://"@) || starts_with(s, "tuic://"@)
}

/// The text starts with the scheme of a web address.
pub open spec fn has_web_scheme(s: Seq<char>) -> bool {
    starts_with(s, "http://"@) || starts_with(s, "https://"@)
}

/// The text is a proxy configuration or a web address.
pub open spec fn is_connection_url(s: Seq<char>) -> bool {
    has_config_scheme(folded(s)) || has_web_scheme(folded(s))
}

/// The text is the web address of a subscription.
pub open spec fn is_subscription_url(s: Seq<char>) -> bool {
    has_web_scheme(folded(s)) && (contains(folded(s), "/sub"@) || contains(
        folded(s),
        "subscription"@,
    ) || contains(folded(s), "subscribe"@))
}

/// The text is a proxy configuration.
pub open spec fn is_config_url(s: Seq<char>) -> bool {
    has_config_scheme(folded(s))
}

/// The connection URLs in a value: those under the usual keys of an object first, then those in
/// all its values; those of an array item by item.
pub open spec fn urls_in(value: JsonModel) -> Seq<Seq<char>>
    decreases value,
{
    match value {
        JsonModel::Str(s) => if is_connection_url(s) {
            seq![s]
        } else {
            seq![]
        },
        JsonModel::Array(items) => urls_in_items(items),
        JsonModel::Object(entries) => urls_at(entries, "subUrl"@) + urls_at(
            entries,
            "subscription"@,
        ) + urls_at(entries, "subscriptionUrl"@) + urls_at(entries, "url"@) + urls_at(
            entries,
            "link"@,
        ) + urls_in_entries(entries),
        _ => seq![],
    }
}

/// The connection URLs in the items, one item after the other.
pub open spec fn urls_in_items(items: Seq<JsonModel>) -> Seq<Seq<char>>
    decreases items,
{
    if items.len() == 0 {
        seq![]
    } else {
        urls_in_items(items.drop_last()) + urls_in(items[items.len() - 1])
    }
}

/// The connection URLs in the values of the entries, one entry after the other.
pub open spec fn urls_in_entries(entries: Seq<(Seq<char>, JsonModel)>) -> Seq<Seq<char>>
    decreases entries,
{
    if entries.len() == 0 {
        seq![]
    } else {
        urls_in_entries(entries.drop_last()) + urls_in(entries[entries.len() - 1].1)
    }
}

/// The connection URLs in the value of the entry with the key `key`.
pub open spec fn urls_at(entries: Seq<(Seq<char>, JsonModel)>, key: Seq<char>) -> Seq<Seq<char>>
    decreases entries,
{
    let i = key_index(entries, key) as int;
    if i < entries.len() {
        urls_in(entries[i].1)
    } else {
        seq![]
    }
}

/// The first text for which `p` holds.
pub open spec fn first_where(s: Seq<Seq<char>>, p: spec_fn(Seq<char>) -> bool) -> Option<Seq<char>>
    decreases s.len(),
{
    if s.len() == 0 {
        None
    } else if p(s[0]) {
        Some(s[0])
    } else {
        first_where(s.drop_first(), p)
    }
}

/// The texts that are not blank, each only where nothing before it is the same but for
/// surrounding whitespace.
pub open spec fn without_repeats(s: Seq<Seq<char>>) -> Seq<Seq<char>>
    decreases s.len(),
{
    if s.len() == 0 {
        seq![]
    } else {
        let before = without_repeats(s.drop_last());
        if trim(s.last()).len() == 0 || occurs_trimmed(s.drop_last(), trim(s.last())) {
            before
        } else {
            before.push(s.last())
        }
    }
}

/// One of the texts is `key` once trimmed.
pub open spec fn occurs_trimmed(s: Seq<Seq<char>>, key: Seq<char>) -> bool {
    exists|i: int| 0 <= i < s.len() && trim(#[trigger] s[i]) == key
}

/// The URL names the client by one of the identities that are given.
pub open spec fn matches_identity(
    url: Seq<char>,
    email: Seq<char>,
    client_uuid: Seq<char>,
    sub_id: Seq<char>,
) -> bool {
    (client_uuid.len() > 0 && contains(url, client_uuid)) || (email.len() > 0 && contains(
        url,
        email,
    )) || (sub_id.len() > 0 && contains(url, sub_id))
}

/// The first subscription among the URLs, or the first proxy configuration.
pub open spec fn preferred_kind(urls: Seq<Seq<char>>) -> Option<Seq<char>> {
    match first_where(urls, |u: Seq<char>| is_subscription_url(u)) {
        Some(u) => Some(u),
        None => first_where(urls, |u: Seq<char>| is_config_url(u)),
    }
}

/// The preferred kind among the URLs that name the client, or among all.
pub open spec fn preferred_url(
    urls: Seq<Seq<char>>,
    email: Seq<char>,
    client_uuid: Seq<char>,
    sub_id: Seq<char>,
) -> Option<Seq<char>> {
    match preferred_kind(
        urls.filter(|u: Seq<char>| matches_identity(u, email, client_uuid, sub_id)),
    ) {
        Some(u) => Some(u),
        None => preferred_kind(urls),
    }
}

/// The URL of choice in a value.
pub open spec fn best_url(
    value: JsonModel,
    email: Seq<char>,
    client_uuid: Seq<char>,
    sub_id: Seq<char>,
) -> Option<Seq<char>> {
    let urls = without_repeats(urls_in(value));
    if urls.len() == 0 {
        None
    } else {
        match preferred_url(urls, email, client_uuid, sub_id) {
            Some(u) => Some(u),
            None => Some(urls[0]),
        }
    }
}

/// How well a URL names the client.
pub open spec fn url_score(
    url: Seq<char>,
    email: Seq<char>,
    client_uuid: Seq<char>,
    sub_id: Seq<char>,
) -> int {
    (if contains(url, client_uuid) {
        4int
    } else {
        0
    }) + (if contains(url, email) {
        2int
    } else {
        0
    }) + (if contains(url, sub_id) {
        1int
    } else {
        0
    })
}

/// The position of the first of the URLs with the highest score.
pub open spec fn best_scored(
    urls: Seq<Seq<char>>,
    email: Seq<char>,
    client_uuid: Seq<char>,
    sub_id: Seq<char>,
) -> int
    decreases urls.len(),
{
    if urls.len() <= 1 {
        0
    } else {
        let before = best_scored(urls.drop_last(), email, client_uuid, sub_id);
        if url_score(urls.last(), email, client_uuid, sub_id) > url_score(
            urls[before],
            email,
            client_uuid,
            sub_id,
        ) {
            urls.len() - 1
        } else {
            before
        }
    }
}

/// The URL in a value that names the client best, the first of them where there are more.
pub open spec fn best_scored_url(
    value: JsonModel,
    email: Seq<char>,
    client_uuid: Seq<char>,
    sub_id: Seq<char>,
) -> Option<Seq<char>> {
    let urls = urls_in(value);
    if urls.len() == 0 {
        None
    } else {
        Some(urls[best_scored(urls, email, client_uuid, sub_id)])
    }
}

/// The choice by score has the highest score, and everything before it a lower one.
pub proof fn best_scored_is_first_best(
    urls: Seq<Seq<char>>,
    email: Seq<char>,
    client_uuid: Seq<char>,
    sub_id: Seq<char>,
)
    requires
        urls.len() > 0,
    ensures
        0 <= best_scored(urls, email, client_uuid, sub_id) < urls.len(),
        forall|j: int|
            0 <= j < urls.len() ==> url_score(#[trigger] urls[j], email, client_uuid, sub_id)
                <= url_score(
                urls[best_scored(urls, email, client_uuid, sub_id)],
                email,
                client_uuid,
                sub_id,
            ),
        forall|j: int|
            0 <= j < best_scored(urls, email, client_uuid, sub_id) ==> url_score(
                #[trigger] urls[j],
                email,
                client_uuid,
                sub_id,
            ) < url_score(
                urls[best_scored(urls, email, client_uuid, sub_id)],
                email,
                client_uuid,
                sub_id,
            ),
    decreases urls.len(),
{
    if urls.len() > 1 {
        let head = urls.drop_last();
        best_scored_is_first_best(head, email, client_uuid, sub_id);
        let before = best_scored(head, email, client_uuid, sub_id);
        assert(head[before] == urls[before]);
        assert forall|j: int| 0 <= j < urls.len() - 1 implies url_score(
            #[trigger] urls[j],
            email,
            client_uuid,
            sub_id,
        ) <= url_score(urls[before], email, client_uuid, sub_id) && (j < before ==> url_score(
            urls[j],
            email,
            client_uuid,
            sub_id,
        ) < url_score(urls[before], email, client_uuid, sub_id)) by {
            assert(head[j] == urls[j]);
        }
    }
}

/// A proxy configuration starts with one of six schemes and a web address with one of two; a
/// subscription is a web address that speaks of one.
pub proof fn schemes_make_the_kind(s: Seq<char>, rest: Seq<char>)
    ensures
        has_config_scheme("vless://"@ + rest),
        has_config_scheme("vmess://"@ + rest),
        has_config_scheme("trojan://"@ + rest),
        has_config_scheme("ss://"@ + rest),
        has_config_scheme("hysteria://"@ + rest),
        has_config_scheme("tuic://"@ + rest),
        has_web_scheme("http://"@ + rest),
        has_web_scheme("https://"@ + rest),
        has_config_scheme(s) ==> "vless://"@.is_prefix_of(s) || "vmess://"@.is_prefix_of(s)
            || "trojan://"@.is_prefix_of(s) || "ss://"@.is_prefix_of(s)
            || "hysteria://"@.is_prefix_of(s) || "tuic://"@.is_prefix_of(s),
        has_web_scheme(s) ==> "http://"@.is_prefix_of(s) || "https://"@.is_prefix_of(s),
        is_connection_url(s) <==> is_config_url(s) || has_web_scheme(folded(s)),
        is_subscription_url(s) <==> has_web_scheme(folded(s)) && (contains(folded(s), "/sub"@)
            || contains(folded(s), "subscription"@) || contains(folded(s), "subscribe"@)),
        is_config_url(s) <==> has_config_scheme(lowercased(trim(s))),
{
    starts_and_holds(s, seq![], "vless://"@, rest);
    starts_and_holds(s, seq![], "vmess://"@, rest);
    starts_and_holds(s, seq![], "trojan://"@, rest);
    starts_and_holds(s, seq![], "ss://"@, rest);
    starts_and_holds(s, seq![], "hysteria://"@, rest);
    starts_and_holds(s, seq![], "tuic://"@, rest);
    starts_and_holds(s, seq![], "http://"@, rest);
    starts_and_holds(s, seq![], "https://"@, rest);
}

/// The UUID of a client counts more than its e-mail and its subscription together, and its e-mail
/// more than its subscription.
pub proof fn uuid_counts_most(
    a: Seq<char>,
    b: Seq<char>,
    email: Seq<char>,
    client_uuid: Seq<char>,
    sub_id: Seq<char>,
)
    ensures
        contains(a, client_uuid) && !contains(b, client_uuid) ==> url_score(
            a,
            email,
            client_uuid,
            sub_id,
        ) > url_score(b, email, client_uuid, sub_id),
        contains(a, client_uuid) == contains(b, client_uuid) && contains(a, email) && !contains(
            b,
            email,
        ) ==> url_score(a, email, client_uuid, sub_id) > url_score(b, email, client_uuid, sub_id),
        contains(a, client_uuid) == contains(b, client_uuid) && contains(a, email) == contains(
            b,
            email,
        ) && contains(a, sub_id) && !contains(b, sub_id) ==> url_score(
            a,
            email,
            client_uuid,
            sub_id,
        ) > url_score(b, email, client_uuid, sub_id),
{
}

/// A URL names a client by each identity that is given, and by no empty one.
pub proof fn any_given_identity_names(
    url: Seq<char>,
    email: Seq<char>,
    client_uuid: Seq<char>,
    sub_id: Seq<char>,
)
    ensures
        email.len() > 0 && contains(url, email) ==> matches_identity(
            url,
            email,
            client_uuid,
            sub_id,
        ),
        client_uuid.len() > 0 && contains(url, client_uuid) ==> matches_identity(
            url,
            email,
            client_uuid,
            sub_id,
        ),
        sub_id.len() > 0 && contains(url, sub_id) ==> matches_identity(
            url,
            email,
            client_uuid,
            sub_id,
        ),
        !matches_identity(url, seq![], seq![], seq![]),
        !contains(url, email) && !contains(url, client_uuid) && !contains(url, sub_id)
            ==> !matches_identity(url, email, client_uuid, sub_id),
{
}

/// URLs are collected in order: those of a list item by item, and those of an object under the
/// usual keys before all others.
pub proof fn urls_are_collected_in_order(
    s: Seq<char>,
    items: Seq<JsonModel>,
    item: JsonModel,
    entries: Seq<(Seq<char>, JsonModel)>,
)
    ensures
        is_connection_url(s) ==> urls_in(JsonModel::Str(s)) == seq![s],
        !is_connection_url(s) ==> urls_in(JsonModel::Str(s)) == Seq::<Seq<char>>::empty(),
        urls_in(JsonModel::Array(items.push(item))) == urls_in(JsonModel::Array(items)) + urls_in(
            item,
        ),
        (urls_at(entries, "subUrl"@) + urls_at(entries, "subscription"@) + urls_at(
            entries,
            "subscriptionUrl"@,
        ) + urls_at(entries, "url"@) + urls_at(entries, "link"@)).is_prefix_of(
            urls_in(JsonModel::Object(entries)),
        ),
        urls_in_entries(entries).is_suffix_of(urls_in(JsonModel::Object(entries))),
{
    assert(items.push(item).drop_last() =~= items);
    assert(items.push(item)[items.push(item).len() - 1] == item);
    let keyed = urls_at(entries, "subUrl"@) + urls_at(entries, "subscription"@) + urls_at(
        entries,
        "subscriptionUrl"@,
    ) + urls_at(entries, "url"@) + urls_at(entries, "link"@);
    let rest = urls_in_entries(entries);
    assert(urls_in(JsonModel::Object(entries)) == keyed + rest);
    assert(keyed =~= (keyed + rest).subrange(0, keyed.len() as int));
    assert(rest =~= (keyed + rest).subrange(keyed.len() as int, (keyed + rest).len() as int));
}

/// A choice by a property is the first that has it.
pub proof fn first_that_fits_is_chosen(s: Seq<Seq<char>>, p: spec_fn(Seq<char>) -> bool, i: int)
    requires
        0 <= i <= s.len(),
        i < s.len() ==> p(s[i]),
        forall|j: int| 0 <= j < i ==> !p(#[trigger] s[j]),
    ensures
        first_where(s, p) == if i < s.len() {
            Some(s[i])
        } else {
            None
        },
    decreases s.len(),
{
    if i > 0 {
        assert(!p(s[0]));
        let rest = s.drop_first();
        assert forall|j: int| 0 <= j < i - 1 implies !p(#[trigger] rest[j]) by {
            assert(rest[j] == s[j + 1]);
        }
        first_that_fits_is_chosen(rest, p, i - 1);
    }
}

/// Subscriptions are preferred to configurations, and of each kind the first is chosen.
pub proof fn subscriptions_are_preferred(urls: Seq<Seq<char>>, i: int, k: int)
    requires
        0 <= i <= urls.len(),
        i < urls.len() ==> is_subscription_url(urls[i]),
        forall|j: int| 0 <= j < i ==> !is_subscription_url(#[trigger] urls[j]),
        0 <= k <= urls.len(),
        k < urls.len() ==> is_config_url(urls[k]),
        forall|j: int| 0 <= j < k ==> !is_config_url(#[trigger] urls[j]),
    ensures
        preferred_kind(urls) == if i < urls.len() {
            Some(urls[i])
        } else if k < urls.len() {
            Some(urls[k])
        } else {
            None
        },
{
    first_that_fits_is_chosen(urls, |u: Seq<char>| is_subscription_url(u), i);
    first_that_fits_is_chosen(urls, |u: Seq<char>| is_config_url(u), k);
}

/// Dropping repeats loses no text that is not blank: each is kept in one of its forms.
pub proof fn nothing_but_repeats_is_dropped(s: Seq<Seq<char>>, i: int)
    requires
        0 <= i < s.len(),
        trim(s[i]).len() > 0,
    ensures
        occurs_trimmed(without_repeats(s), trim(s[i])),
    decreases s.len(),
{
    let head = s.drop_last();
    let kept = without_repeats(head);
    let key = trim(s[i]);
    if i < head.len() {
        assert(head[i] == s[i]);
        nothing_but_repeats_is_dropped(head, i);
        let k = choose|k: int| 0 <= k < kept.len() && trim(#[trigger] kept[k]) == key;
        assert(trim(without_repeats(s)[k]) == key);
    } else if occurs_trimmed(head, key) {
        let m = choose|m: int| 0 <= m < head.len() && trim(#[trigger] head[m]) == key;
        nothing_but_repeats_is_dropped(head, m);
        let k = choose|k: int| 0 <= k < kept.len() && trim(#[trigger] kept[k]) == key;
        assert(trim(without_repeats(s)[k]) == key);
    } else {
        assert(trim(without_repeats(s)[kept.len() as int]) == key);
    }
}

/// There is a URL of choice exactly where the value holds one that is not blank; where none is of a
/// preferred kind, it is the first.
pub proof fn some_url_is_chosen(
    value: JsonModel,
    email: Seq<char>,
    client_uuid: Seq<char>,
    sub_id: Seq<char>,
)
    ensures
        best_url(value, email, client_uuid, sub_id) is Some <==> exists|i: int|
            0 <= i < urls_in(value).len() && trim(#[trigger] urls_in(value)[i]).len() > 0,
        preferred_url(without_repeats(urls_in(value)), email, client_uuid, sub_id) matches Some(u)
            ==> best_url(value, email, client_uuid, sub_id) == Some(u) || without_repeats(
            urls_in(value),
        ).len() == 0,
        best_scored_url(value, email, client_uuid, sub_id) is Some <==> urls_in(value).len() > 0,
        best_scored_url(value, email, client_uuid, sub_id) matches Some(u) ==> u == urls_in(
            value,
        )[best_scored(urls_in(value), email, client_uuid, sub_id)],
{
    let all = urls_in(value);
    if best_url(value, email, client_uuid, sub_id) is Some {
        repeats_are_gone(all);
        unrepeated_is_among(all, 0);
        let u = without_repeats(all)[0];
        let i = choose|i: int| 0 <= i < all.len() && all[i] == u;
        assert(trim(all[i]).len() > 0);
    }
    if exists|i: int| 0 <= i < all.len() && trim(#[trigger] all[i]).len() > 0 {
        let i = choose|i: int| 0 <= i < all.len() && trim(#[trigger] all[i]).len() > 0;
        nothing_but_repeats_is_dropped(all, i);
    }
}

proof fn chosen_kind_is_among(urls: Seq<Seq<char>>, p: spec_fn(Seq<char>) -> bool)
    ensures
        first_where(urls, p) matches Some(u) ==> urls.contains(u) && p(u),
    decreases urls.len(),
{
    if urls.len() > 0 {
        chosen_kind_is_among(urls.drop_first(), p);
        if let Some(u) = first_where(urls, p) {
            if p(urls[0]) {
                assert(urls[0] == u);
            } else {
                let i = choose|i: int| 0 <= i < urls.drop_first().len() && urls.drop_first()[i] == u;
                assert(urls[i + 1] == u);
            }
        }
    }
}

proof fn filtered_is_among(urls: Seq<Seq<char>>, p: spec_fn(Seq<char>) -> bool, u: Seq<char>)
    requires
        urls.filter(p).contains(u),
    ensures
        urls.contains(u),
    decreases urls.len(),
{
    reveal(Seq::filter);
    if urls.len() > 0 {
        let head = urls.drop_last();
        let i = choose|i: int| 0 <= i < urls.filter(p).len() && urls.filter(p)[i] == u;
        if p(urls.last()) && i == head.filter(p).len() {
            assert(urls[urls.len() - 1] == u);
        } else {
            assert(head.filter(p)[i] == u);
            filtered_is_among(head, p, u);
            let j = choose|j: int| 0 <= j < head.len() && head[j] == u;
            assert(urls[j] == u);
        }
    }
}

proof fn unrepeated_is_among(urls: Seq<Seq<char>>, k: int)
    requires
        0 <= k < without_repeats(urls).len(),
    ensures
        urls.contains(without_repeats(urls)[k]),
    decreases urls.len(),
{
    if urls.len() > 0 {
        let head = urls.drop_last();
        if k < without_repeats(head).len() {
            unrepeated_is_among(head, k);
            let u = without_repeats(head)[k];
            assert(without_repeats(urls)[k] == u);
            let j = choose|j: int| 0 <= j < head.len() && head[j] == u;
            assert(urls[j] == u);
        } else {
            assert(urls[urls.len() - 1] == without_repeats(urls)[k]);
        }
    }
}

/// No two texts that are kept are the same but for surrounding whitespace, and none is blank.
pub proof fn repeats_are_gone(s: Seq<Seq<char>>)
    ensures
        forall|i: int|
            0 <= i < without_repeats(s).len() ==> trim(#[trigger] without_repeats(s)[i]).len() > 0,
        forall|i: int, j: int|
            0 <= i < j < without_repeats(s).len() ==> trim(#[trigger] without_repeats(s)[i])
                != trim(#[trigger] without_repeats(s)[j]),
    decreases s.len(),
{
    if s.len() > 0 {
        let head = s.drop_last();
        let kept = without_repeats(head);
        repeats_are_gone(head);
        assert forall|i: int, j: int|
            0 <= i < j < without_repeats(s).len() implies trim(#[trigger] without_repeats(s)[i])
            != trim(#[trigger] without_repeats(s)[j]) by {
            if j == kept.len() {
                unrepeated_is_among(head, i);
                let m = choose|m: int| 0 <= m < head.len() && head[m] == kept[i];
                assert(trim(head[m]) == trim(kept[i]));
            } else {
                assert(kept[i] == without_repeats(s)[i]);
                assert(kept[j] == without_repeats(s)[j]);
            }
        }
        assert forall|i: int| 0 <= i < without_repeats(s).len() implies trim(
            #[trigger] without_repeats(s)[i],
        ).len() > 0 by {
            if i < kept.len() {
                assert(kept[i] == without_repeats(s)[i]);
            }
        }
    }
}

/// The URL of choice is one of those in the value.
pub proof fn best_url_is_in_value(
    value: JsonModel,
    email: Seq<char>,
    client_uuid: Seq<char>,
    sub_id: Seq<char>,
)
    ensures
        best_url(value, email, client_uuid, sub_id) matches Some(u) ==> urls_in(value).contains(u),
{
    let urls = without_repeats(urls_in(value));
    if let Some(u) = best_url(value, email, client_uuid, sub_id) {
        let named = |v: Seq<char>| matches_identity(v, email, client_uuid, sub_id);
        let subscription = |v: Seq<char>| is_subscription_url(v);
        let config = |v: Seq<char>| is_config_url(v);
        chosen_kind_is_among(urls.filter(named), subscription);
        chosen_kind_is_among(urls.filter(named), config);
        chosen_kind_is_among(urls, subscription);
        chosen_kind_is_among(urls, config);
        if urls.filter(named).contains(u) {
            filtered_is_among(urls, named, u);
        } else if preferred_url(urls, email, client_uuid, sub_id) is None {
            assert(urls[0] == u);
        }
        let k = choose|k: int| 0 <= k < urls.len() && urls[k] == u;
        unrepeated_is_among(urls_in(value), k);
    }
}

/// A URL that names the client is preferred to one that does not, where both are subscriptions or
/// configurations.
pub proof fn named_url_is_preferred(
    urls: Seq<Seq<char>>,
    email: Seq<char>,
    client_uuid: Seq<char>,
    sub_id: Seq<char>,
)
    requires
        preferred_kind(
            urls.filter(|u: Seq<char>| matches_identity(u, email, client_uuid, sub_id)),
        ) is Some,
    ensures
        preferred_url(urls, email, client_uuid, sub_id) matches Some(u) && matches_identity(
            u,
            email,
            client_uuid,
            sub_id,
        ),
{
    let named = |u: Seq<char>| matches_identity(u, email, client_uuid, sub_id);
    chosen_kind_is_among(urls.filter(named), |u: Seq<char>| is_subscription_url(u));
    chosen_kind_is_among(urls.filter(named), |u: Seq<char>| is_config_url(u));
    let u = preferred_url(urls, email, client_uuid, sub_id)->0;
    filtered_is_named(urls, named, u);
}

proof fn filtered_is_named(urls: Seq<Seq<char>>, p: spec_fn(Seq<char>) -> bool, u: Seq<char>)
    requires
        urls.filter(p).contains(u),
    ensures
        p(u),
    decreases urls.len(),
{
    reveal(Seq::filter);
    if urls.len() > 0 {
        let head = urls.drop_last();
        let i = choose|i: int| 0 <= i < urls.filter(p).len() && urls.filter(p)[i] == u;
        if !(p(urls.last()) && i == head.filter(p).len()) {
            assert(head.filter(p)[i] == u);
            filtered_is_named(head, p, u);
        }
    }
}

fn is_config_scheme(lower: &str) -> (r: bool)
    ensures
        r == has_config_scheme(lower@),
{
    has_prefix(lower, "vless://") || has_prefix(lower, "vmess://") || has_prefix(
        lower,
        "trojan://",
    ) || has_prefix(lower, "ss://") || has_prefix(lower, "hysteria://") || has_prefix(
        lower,
        "tuic://",
    )
}

fn is_web_scheme(lower: &str) -> (r: bool)
    ensures
        r == has_web_scheme(lower@),
{
    has_prefix(lower, "http://") || has_prefix(lower, "https://")
}

/// Whether the text is a proxy configuration or a web address.
pub fn is_connection_url_candidate(value: &str) -> (r: bool)
    ensures
        r == is_connection_url(value@),
{
    let lower = trim_text(value).to_lowercase();
    is_config_scheme(&lower) || is_web_scheme(&lower)
}

/// Whether the text is the web address of a subscription.
pub fn is_subscription_url_candidate(value: &str) -> (r: bool)
    ensures
        r == is_subscription_url(value@),
{
    let lower = trim_text(value).to_lowercase();
    is_web_scheme(&lower) && (has_text(&lower, "/sub") || has_text(&lower, "subscription")
        || has_text(&lower, "subscribe"))
}

/// Whether the text is a proxy configuration.
pub fn is_config_url_candidate(value: &str) -> (r: bool)
    ensures
        r == is_config_url(value@),
{
    let lower = trim_text(value).to_lowercase();
    is_config_scheme(&lower)
}

/// Appends the connection URLs in `value` to `out`.
pub fn collect_connection_urls(value: &Json, out: &mut Vec<String>)
    ensures
        final(out).deep_view() == old(out).deep_view() + urls_in(value@),
    decreases value@, 1int,
{
    let ghost start = out.deep_view();
    match value {
        Json::Str(s) => {
            if is_connection_url_candidate(s) {
                out.push(s.clone());
                assert(out.deep_view() =~= start + seq![s@]);
            } else {
                assert(start =~= start + Seq::<Seq<char>>::empty());
            }
        },
        Json::Array(items) => {
            proof {
                Json::array_view(*items);
            }
            let ghost all = models(items@);
            assert(start =~= start + urls_in_items(all.take(0)));
            let mut i: usize = 0;
            while i < items.len()
                invariant
                    i <= items@.len(),
                    all == models(items@),
                    value@ == JsonModel::Array(all),
                    out.deep_view() == start + urls_in_items(all.take(i as int)),
                decreases items@.len() - i,
            {
                proof {
                    item_is_smaller(all, i as int);
                }
                assert(items@[i as int]@ == all[i as int]);
                collect_connection_urls(&items[i], out);
                assert(all.take(i + 1).drop_last() =~= all.take(i as int));
                assert(start + urls_in_items(all.take(i as int)) + urls_in(all[i as int])
                    =~= start + urls_in_items(all.take(i + 1)));
                i = i + 1;
            }
            assert(all.take(i as int) =~= all);
        },
        Json::Object(entries) => {
            proof {
                Json::object_view(*entries);
            }
            let ghost all = entry_models(entries@);
            collect_at(value, "subUrl", out);
            collect_at(value, "subscription", out);
            collect_at(value, "subscriptionUrl", out);
            collect_at(value, "url", out);
            collect_at(value, "link", out);
            let ghost named = urls_at(all, "subUrl"@) + urls_at(all, "subscription"@) + urls_at(
                all,
                "subscriptionUrl"@,
            ) + urls_at(all, "url"@) + urls_at(all, "link"@);
            assert(out.deep_view() =~= start + named + urls_in_entries(all.take(0)));
            let mut i: usize = 0;
            while i < entries.len()
                invariant
                    i <= entries@.len(),
                    all == entry_models(entries@),
                    value@ == JsonModel::Object(all),
                    out.deep_view() == start + named + urls_in_entries(all.take(i as int)),
                decreases entries@.len() - i,
            {
                proof {
                    entry_is_smaller(all, i as int);
                }
                assert((entries@[i as int].0@, entries@[i as int].1@) == all[i as int]);
                collect_connection_urls(&entries[i].1, out);
                assert(all.take(i + 1).drop_last() =~= all.take(i as int));
                assert(start + named + urls_in_entries(all.take(i as int)) + urls_in(
                    all[i as int].1,
                ) =~= start + named + urls_in_entries(all.take(i + 1)));
                i = i + 1;
            }
            assert(all.take(i as int) =~= all);
            assert(start + named + urls_in_entries(all) =~= start + (named + urls_in_entries(all)));
        },
        _ => {
            assert(start =~= start + Seq::<Seq<char>>::empty());
        },
    }
}

fn collect_at(value: &Json, key: &str, out: &mut Vec<String>)
    requires
        value@ is Object,
    ensures
        final(out).deep_view() == old(out).deep_view() + urls_at(value@->Object_0, key@),
    decreases value@, 0int,
{
    let ghost start = out.deep_view();
    let ghost entries = value@->Object_0;
    match value.field(key) {
        Some(inner) => {
            proof {
                entry_is_smaller(entries, key_index(entries, key@) as int);
            }
            collect_connection_urls(inner, out);
        },
        None => {
            assert(start =~= start + Seq::<Seq<char>>::empty());
        },
    }
}

/// Whether the URL names the client by one of the identities that are given.
pub fn candidate_matches_identity(url: &str, email: &str, client_uuid: &str, sub_id: &str) -> (r:
    bool)
    ensures
        r == matches_identity(url@, email@, client_uuid@, sub_id@),
{
    (!client_uuid.is_empty() && has_text(url, client_uuid)) || (!email.is_empty() && has_text(
        url,
        email,
    )) || (!sub_id.is_empty() && has_text(url, sub_id))
}

/// The texts that are not blank, each where it stands first.
pub fn dedup_preserve_order(values: Vec<String>) -> (r: Vec<String>)
    ensures
        r.deep_view() == without_repeats(values.deep_view()),
{
    let ghost all = values.deep_view();
    let mut seen: Vec<String> = Vec::new();
    let mut out: Vec<String> = Vec::new();
    let mut i: usize = 0;
    assert(out.deep_view() =~= without_repeats(all.take(0)));
    while i < values.len()
        invariant
            i <= values@.len(),
            all == values.deep_view(),
            seen@.len() == i,
            forall|j: int| 0 <= j < i ==> (#[trigger] seen@[j])@ == trim(all[j]),
            out.deep_view() == without_repeats(all.take(i as int)),
        decreases values@.len() - i,
    {
        let ghost before = out.deep_view();
        let ghost head = all.take(i as int);
        let key = trim_text(&values[i]);
        assert(all[i as int] == values@[i as int]@);
        assert(all.take(i + 1).drop_last() =~= head);
        let mut repeated = false;
        let mut k: usize = 0;
        while k < seen.len()
            invariant
                k <= seen@.len(),
                seen@.len() == i,
                head.len() == i,
                head == all.take(i as int),
                i <= all.len(),
                forall|j: int| 0 <= j < i ==> (#[trigger] seen@[j])@ == trim(all[j]),
                repeated == exists|j: int| 0 <= j < k && trim(#[trigger] head[j]) == key@,
            decreases seen@.len() - k,
        {
            assert(head[k as int] == all[k as int]);
            if text_eq(&seen[k], &key) {
                assert(trim(head[k as int]) == key@);
                repeated = true;
            }
            k = k + 1;
        }
        assert(repeated == occurs_trimmed(head, key@));
        if !key.as_str().is_empty() && !repeated {
            out.push(values[i].clone());
            assert(out.deep_view() =~= before.push(all[i as int]));
        }
        seen.push(key);
        i = i + 1;
    }
    assert(all.take(i as int) =~= all);
    out
}

/// The first subscription among the URLs, or the first proxy configuration.
pub fn pick_by_kind(urls: &Vec<String>) -> (r: Option<String>)
    ensures
        r.deep_view() == preferred_kind(urls.deep_view()),
{
    let ghost all = urls.deep_view();
    let ghost subscription = |u: Seq<char>| is_subscription_url(u);
    let ghost config = |u: Seq<char>| is_config_url(u);
    assert(all.skip(0) =~= all);
    let mut i: usize = 0;
    while i < urls.len()
        invariant
            i <= urls@.len(),
            all == urls.deep_view(),
            subscription == |u: Seq<char>| is_subscription_url(u),
            first_where(all, subscription) == first_where(all.skip(i as int), subscription),
        decreases urls@.len() - i,
    {
        assert(all.skip(i as int)[0] == urls@[i as int]@);
        if is_subscription_url_candidate(&urls[i]) {
            return Some(urls[i].clone());
        }
        assert(all.skip(i as int).drop_first() =~= all.skip(i + 1));
        i = i + 1;
    }
    let mut i: usize = 0;
    while i < urls.len()
        invariant
            i <= urls@.len(),
            all == urls.deep_view(),
            config == |u: Seq<char>| is_config_url(u),
            subscription == |u: Seq<char>| is_subscription_url(u),
            first_where(all, subscription) is None,
            first_where(all, config) == first_where(all.skip(i as int), config),
        decreases urls@.len() - i,
    {
        assert(all.skip(i as int)[0] == urls@[i as int]@);
        if is_config_url_candidate(&urls[i]) {
            return Some(urls[i].clone());
        }
        assert(all.skip(i as int).drop_first() =~= all.skip(i + 1));
        i = i + 1;
    }
    None
}

/// The preferred kind among the URLs that name the client, or among all.
pub fn choose_url_with_priority(
    candidates: &Vec<String>,
    email: &str,
    client_uuid: &str,
    sub_id: &str,
) -> (r: Option<String>)
    ensures
        r.deep_view() == preferred_url(candidates.deep_view(), email@, client_uuid@, sub_id@),
{
    let ghost all = candidates.deep_view();
    let ghost named = |u: Seq<char>| matches_identity(u, email@, client_uuid@, sub_id@);
    let mut matched: Vec<String> = Vec::new();
    let mut i: usize = 0;
    proof {
        reveal(Seq::filter);
    }
    assert(matched.deep_view() =~= all.take(0).filter(named));
    while i < candidates.len()
        invariant
            i <= candidates@.len(),
            all == candidates.deep_view(),
            named == |u: Seq<char>| matches_identity(u, email@, client_uuid@, sub_id@),
            matched.deep_view() == all.take(i as int).filter(named),
        decreases candidates@.len() - i,
    {
        proof {
            reveal(Seq::filter);
        }
        let ghost before = matched.deep_view();
        assert(all[i as int] == candidates@[i as int]@);
        assert(all.take(i + 1).drop_last() =~= all.take(i as int));
        if candidate_matches_identity(&candidates[i], email, client_uuid, sub_id) {
            matched.push(candidates[i].clone());
            assert(matched.deep_view() =~= before.push(all[i as int]));
        }
        i = i + 1;
    }
    assert(all.take(i as int) =~= all);
    match pick_by_kind(&matched) {
        Some(url) => Some(url),
        None => pick_by_kind(candidates),
    }
}

/// The URL of choice in a value.
pub fn find_best_connection_url(value: &Json, email: &str, client_uuid: &str, sub_id: &str) -> (r:
    Option<String>)
    ensures
        r.deep_view() == best_url(value@, email@, client_uuid@, sub_id@),
{
    let mut raw: Vec<String> = Vec::new();
    let ghost start = raw.deep_view();
    collect_connection_urls(value, &mut raw);
    assert(start + urls_in(value@) =~= urls_in(value@));
    let candidates = dedup_preserve_order(raw);
    if candidates.len() == 0 {
        return None;
    }
    match choose_url_with_priority(&candidates, email, client_uuid, sub_id) {
        Some(url) => Some(url),
        None => Some(candidates[0].clone()),
    }
}

fn score(url: &str, email: &str, client_uuid: &str, sub_id: &str) -> (r: i32)
    ensures
        r == url_score(url@, email@, client_uuid@, sub_id@),
        0 <= r <= 7,
{
    let mut score: i32 = 0;
    if has_text(url, client_uuid) {
        score = score + 4;
    }
    if has_text(url, email) {
        score = score + 2;
    }
    if has_text(url, sub_id) {
        score = score + 1;
    }
    score
}

/// The first of the URLs in a value that names the client best.
pub fn find_best_scored_url(value: &Json, email: &str, client_uuid: &str, sub_id: &str) -> (r:
    Option<String>)
    ensures
        r.deep_view() == best_scored_url(value@, email@, client_uuid@, sub_id@),
{
    let mut raw: Vec<String> = Vec::new();
    let ghost start = raw.deep_view();
    collect_connection_urls(value, &mut raw);
    assert(start + urls_in(value@) =~= urls_in(value@));
    let ghost all = urls_in(value@);
    if raw.len() == 0 {
        return None;
    }
    assert(all[0] == raw@[0]@);
    let mut best: usize = 0;
    let mut best_score: i32 = score(&raw[0], email, client_uuid, sub_id);
    let mut i: usize = 1;
    while i < raw.len()
        invariant
            1 <= i <= raw@.len(),
            all == raw.deep_view(),
            best < i,
            best == best_scored(all.take(i as int), email@, client_uuid@, sub_id@),
            best_score == url_score(all[best as int], email@, client_uuid@, sub_id@),
        decreases raw@.len() - i,
    {
        assert(all[i as int] == raw@[i as int]@);
        assert(all.take(i + 1).drop_last() =~= all.take(i as int));
        let next: i32 = score(&raw[i], email, client_uuid, sub_id);
        if next > best_score {
            best = i;
            best_score = next;
        }
        i = i + 1;
    }
    assert(all.take(i as int) =~= all);
    assert(all[best as int] == raw@[best as int]@);
    Some(raw[best].clone())
}

} // verus!
