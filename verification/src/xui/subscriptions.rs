//! The subscriptions that a panel's inbounds describe.

use vstd::prelude::*;

use crate::json::{
    array_field, bool_field, int_field, model_of, models, str_field, Json, JsonModel,
};
use crate::panel::login::{normalize_login, normalized};
use crate::text::chars::{text_eq, trim, trim_text};

use super::links::{embedded_field, parse_json_field, str_or};
use super::models::{subscription_models, ExistingSubscription, SubscriptionModel};

verus! {

/// An identifier, given as a string that is not blank or as a number.
pub open spec fn id_text(value: Option<JsonModel>) -> Option<Seq<char>> {
    match value {
        Some(JsonModel::Str(s)) => if trim(s).len() > 0 {
            Some(trim(s))
        } else {
            None
        },
        Some(JsonModel::Number { text, .. }) => Some(text),
        _ => None,
    }
}

/// The subscription that a client of an inbound is, if it has an identifier and an e-mail.
pub open spec fn subscription_of(inbound: JsonModel, client: JsonModel) -> Option<
    SubscriptionModel,
> {
    let client_id = str_or(client, "id"@, ""@);
    let email = str_or(client, "email"@, ""@);
    if email.len() == 0 || client_id.len() == 0 {
        None
    } else {
        Some(
            SubscriptionModel {
                client_id,
                email,
                sub_id: id_text(client.field("subId"@)),
                tg_id: id_text(client.field("tgId"@)),
                enabled: match bool_field(client, "enable"@) {
                    Some(b) => b,
                    None => true,
                },
                expiry_time: match int_field(client, "expiryTime"@) {
                    Some(t) => t,
                    None => 0,
                },
                inbound_remark: str_or(inbound, "remark"@, ""@),
                inbound_id: match int_field(inbound, "id"@) {
                    Some(id) => id,
                    None => 0,
                },
            },
        )
    }
}

/// The subscriptions of the clients, in order.
pub open spec fn subscriptions_of(inbound: JsonModel, clients: Seq<JsonModel>) -> Seq<
    SubscriptionModel,
>
    decreases clients.len(),
{
    if clients.len() == 0 {
        seq![]
    } else {
        let before = subscriptions_of(inbound, clients.drop_last());
        match subscription_of(inbound, clients.last()) {
            Some(sub) => before.push(sub),
            None => before,
        }
    }
}

/// The subscriptions of an inbound.
pub open spec fn inbound_subscriptions(inbound: JsonModel) -> Seq<SubscriptionModel> {
    match embedded_field(inbound, "settings"@) {
        Some(settings) => match array_field(settings, "clients"@) {
            Some(clients) => subscriptions_of(inbound, clients),
            None => seq![],
        },
        None => seq![],
    }
}

/// The subscriptions of the inbounds, one inbound after the other.
pub open spec fn subscriptions_of_all(inbounds: Seq<JsonModel>) -> Seq<SubscriptionModel>
    decreases inbounds.len(),
{
    if inbounds.len() == 0 {
        seq![]
    } else {
        subscriptions_of_all(inbounds.drop_last()) + inbound_subscriptions(inbounds.last())
    }
}

/// The subscriptions in what a panel answers: an array of inbounds, or one.
pub open spec fn listed(obj: Option<JsonModel>) -> Seq<SubscriptionModel> {
    match obj {
        Some(JsonModel::Array(inbounds)) => subscriptions_of_all(inbounds),
        Some(inbound) => inbound_subscriptions(inbound),
        None => seq![],
    }
}

/// The subscription belongs to that login.
pub open spec fn is_of(sub: SubscriptionModel, login: Seq<char>) -> bool {
    normalized(sub.email) == normalized(login)
}

/// The first subscription of that login.
pub open spec fn first_of_login(subs: Seq<SubscriptionModel>, login: Seq<char>) -> Option<
    SubscriptionModel,
>
    decreases subs.len(),
{
    if subs.len() == 0 {
        None
    } else if is_of(subs[0], login) {
        Some(subs[0])
    } else {
        first_of_login(subs.drop_first(), login)
    }
}

/// Where the login's subscription is found under `base`, if its identifier is not blank.
pub open spec fn subscription_link(
    subs: Seq<SubscriptionModel>,
    login: Seq<char>,
    base: Seq<char>,
) -> Option<Seq<char>> {
    match first_of_login(subs, login) {
        Some(sub) => match sub.sub_id {
            Some(id) => if trim(id).len() > 0 {
                Some(base + trim(id))
            } else {
                None
            },
            None => None,
        },
        None => None,
    }
}

/// The subscriptions of that login.
pub open spec fn all_of_login(subs: Seq<SubscriptionModel>, login: Seq<char>) -> Seq<
    SubscriptionModel,
> {
    subs.filter(|s: SubscriptionModel| is_of(s, login))
}

/// A subscription belongs to a login whatever surrounds either of them, and the subscriptions of a
/// login are all of those that belong to it, in their order.
pub proof fn logins_have_their_subscriptions(
    subs: Seq<SubscriptionModel>,
    sub: SubscriptionModel,
    login: Seq<char>,
)
    ensures
        normalized(sub.email) == normalized(login) ==> all_of_login(subs.push(sub), login)
            == all_of_login(subs, login).push(sub),
        normalized(sub.email) != normalized(login) ==> all_of_login(subs.push(sub), login)
            == all_of_login(subs, login),
        all_of_login(seq![], login) == Seq::<SubscriptionModel>::empty(),
        forall|i: int|
            0 <= i < all_of_login(subs, login).len() ==> normalized(
                (#[trigger] all_of_login(subs, login)[i]).email,
            ) == normalized(login),
{
    reveal(Seq::filter);
    assert(subs.push(sub).drop_last() =~= subs);
    let p = |s: SubscriptionModel| is_of(s, login);
    assert forall|i: int| 0 <= i < all_of_login(subs, login).len() implies normalized(
        (#[trigger] all_of_login(subs, login)[i]).email,
    ) == normalized(login) by {
        subs.lemma_filter_pred(p, i);
    }
}

/// A client with an identifier and an e-mail is a subscription with what the panel says of it; it is
/// enabled and has no end unless the panel says otherwise. A client without either is none.
pub proof fn subscription_is_what_the_panel_says(inbound: JsonModel, client: JsonModel)
    ensures
        subscription_of(inbound, client) is Some <==> (str_field(client, "id"@) matches Some(id)
            && id.len() > 0) && (str_field(client, "email"@) matches Some(email) && email.len() > 0),
        subscription_of(inbound, client) matches Some(sub) ==> {
            &&& str_field(client, "id"@) == Some(sub.client_id)
            &&& str_field(client, "email"@) == Some(sub.email)
            &&& sub.sub_id == id_text(client.field("subId"@))
            &&& sub.tg_id == id_text(client.field("tgId"@))
            &&& sub.enabled == (bool_field(client, "enable"@) != Some(false))
            &&& (int_field(client, "expiryTime"@) matches Some(end) ==> sub.expiry_time == end)
            &&& (int_field(client, "expiryTime"@) is None ==> sub.expiry_time == 0)
            &&& (int_field(inbound, "id"@) matches Some(id) ==> sub.inbound_id == id)
            &&& (int_field(inbound, "id"@) is None ==> sub.inbound_id == 0)
            &&& (str_field(inbound, "remark"@) matches Some(remark) ==> sub.inbound_remark
                == remark)
        },
{
    reveal_strlit("");
}

/// An identifier is a text without surrounding whitespace, or the text of a number.
pub proof fn identifiers_are_texts_or_numbers(
    s: Seq<char>,
    signed: Option<i64>,
    unsigned: Option<u64>,
)
    ensures
        id_text(Some(JsonModel::Str(s))) == if trim(s).len() > 0 {
            Some(trim(s))
        } else {
            None
        },
        id_text(Some(JsonModel::Number { signed, unsigned, text: s })) == Some(s),
        id_text(None) is None,
        id_text(Some(JsonModel::Null)) is None,
{
}

/// The clients of an inbound and the inbounds of a reply are listed one after the other; a reply may
/// be a list of inbounds or a single one.
pub proof fn all_clients_are_listed(
    inbound: JsonModel,
    clients: Seq<JsonModel>,
    client: JsonModel,
    inbounds: Seq<JsonModel>,
)
    ensures
        subscriptions_of(inbound, clients.push(client)) == match subscription_of(inbound, client) {
            Some(sub) => subscriptions_of(inbound, clients).push(sub),
            None => subscriptions_of(inbound, clients),
        },
        listed(Some(JsonModel::Array(inbounds.push(inbound)))) == listed(
            Some(JsonModel::Array(inbounds)),
        ) + inbound_subscriptions(inbound),
        inbound is Object ==> listed(Some(inbound)) == inbound_subscriptions(inbound),
        listed(None).len() == 0,
        embedded_field(inbound, "settings"@) matches Some(settings) ==> (array_field(
            settings,
            "clients"@,
        ) matches Some(given) ==> inbound_subscriptions(inbound) == subscriptions_of(
            inbound,
            given,
        )),
{
    assert(clients.push(client).drop_last() =~= clients);
    assert(inbounds.push(inbound).drop_last() =~= inbounds);
}

/// The link of a login is the base and the identifier of its first subscription, trimmed; there is
/// none without an identifier.
pub proof fn link_is_that_of_the_first_subscription(
    subs: Seq<SubscriptionModel>,
    login: Seq<char>,
    base: Seq<char>,
    i: int,
)
    requires
        0 <= i <= subs.len(),
        i < subs.len() ==> normalized(subs[i].email) == normalized(login),
        forall|j: int| 0 <= j < i ==> normalized((#[trigger] subs[j]).email) != normalized(login),
    ensures
        i == subs.len() ==> subscription_link(subs, login, base) is None,
        i < subs.len() ==> (subs[i].sub_id is None ==> subscription_link(subs, login, base) is None),
        i < subs.len() ==> (subs[i].sub_id matches Some(id) ==> subscription_link(subs, login, base)
            == if trim(id).len() > 0 {
            Some(base + trim(id))
        } else {
            None
        }),
    decreases subs.len(),
{
    if i > 0 {
        assert(normalized(subs[0].email) != normalized(login));
        let rest = subs.drop_first();
        assert forall|j: int| 0 <= j < i - 1 implies normalized((#[trigger] rest[j]).email)
            != normalized(login) by {
            assert(rest[j] == subs[j + 1]);
        }
        link_is_that_of_the_first_subscription(rest, login, base, i - 1);
    }
}

proof fn subscriptions_are_named(inbound: JsonModel, clients: Seq<JsonModel>)
    ensures
        forall|i: int|
            0 <= i < subscriptions_of(inbound, clients).len() ==> {
                let sub = #[trigger] subscriptions_of(inbound, clients)[i];
                sub.email.len() > 0 && sub.client_id.len() > 0
            },
    decreases clients.len(),
{
    if clients.len() > 0 {
        subscriptions_are_named(inbound, clients.drop_last());
        let before = subscriptions_of(inbound, clients.drop_last());
        let after = subscriptions_of(inbound, clients);
        assert forall|i: int| 0 <= i < after.len() implies {
            let sub = #[trigger] after[i];
            sub.email.len() > 0 && sub.client_id.len() > 0
        } by {
            if i < before.len() {
                assert(after[i] == before[i]);
            }
        }
    }
}

proof fn all_subscriptions_are_named(inbounds: Seq<JsonModel>)
    ensures
        forall|i: int|
            0 <= i < subscriptions_of_all(inbounds).len() ==> {
                let sub = #[trigger] subscriptions_of_all(inbounds)[i];
                sub.email.len() > 0 && sub.client_id.len() > 0
            },
    decreases inbounds.len(),
{
    if inbounds.len() > 0 {
        all_subscriptions_are_named(inbounds.drop_last());
        inbound_subscriptions_are_named(inbounds.last());
        let before = subscriptions_of_all(inbounds.drop_last());
        let last = inbound_subscriptions(inbounds.last());
        let after = subscriptions_of_all(inbounds);
        assert forall|i: int| 0 <= i < after.len() implies {
            let sub = #[trigger] after[i];
            sub.email.len() > 0 && sub.client_id.len() > 0
        } by {
            if i < before.len() {
                assert(after[i] == before[i]);
            } else {
                assert(after[i] == last[i - before.len()]);
            }
        }
    }
}

proof fn inbound_subscriptions_are_named(inbound: JsonModel)
    ensures
        forall|i: int|
            0 <= i < inbound_subscriptions(inbound).len() ==> {
                let sub = #[trigger] inbound_subscriptions(inbound)[i];
                sub.email.len() > 0 && sub.client_id.len() > 0
            },
{
    if let Some(settings) = embedded_field(inbound, "settings"@) {
        if let Some(clients) = array_field(settings, "clients"@) {
            subscriptions_are_named(inbound, clients);
        }
    }
}

/// Every subscription that is listed has an e-mail and an identifier.
pub proof fn listed_subscriptions_are_named(obj: Option<JsonModel>)
    ensures
        forall|i: int|
            0 <= i < listed(obj).len() ==> {
                let sub = #[trigger] listed(obj)[i];
                sub.email.len() > 0 && sub.client_id.len() > 0
            },
{
    match obj {
        Some(JsonModel::Array(inbounds)) => all_subscriptions_are_named(inbounds),
        Some(inbound) => inbound_subscriptions_are_named(inbound),
        None => {},
    }
}

/// An identifier, given as a string that is not blank or as a number.
pub fn json_value_as_non_empty_string(value: Option<&Json>) -> (r: Option<String>)
    ensures
        r.deep_view() == id_text(model_of(value)),
{
    match value {
        Some(Json::Str(s)) => {
            let trimmed = trim_text(s);
            if trimmed.as_str().is_empty() {
                None
            } else {
                Some(trimmed)
            }
        },
        Some(Json::Number(n)) => Some(n.text.clone()),
        _ => None,
    }
}

fn text_or_empty(value: &Json, key: &str) -> (r: String)
    ensures
        r@ == str_or(value@, key@, ""@),
{
    match value.str_field(key) {
        Some(s) => s,
        None => "".to_string(),
    }
}

fn int_or_zero(value: &Json, key: &str) -> (r: i64)
    ensures
        r == match int_field(value@, key@) {
            Some(n) => n,
            None => 0,
        },
{
    match value.int_field(key) {
        Some(n) => n,
        None => 0,
    }
}

fn client_subscription(inbound: &Json, client: &Json) -> (r: Option<ExistingSubscription>)
    ensures
        r is Some <==> subscription_of(inbound@, client@) is Some,
        r matches Some(sub) ==> subscription_of(inbound@, client@) == Some(sub@),
{
    let client_id = text_or_empty(client, "id");
    let email = text_or_empty(client, "email");
    if email.as_str().is_empty() || client_id.as_str().is_empty() {
        return None;
    }
    let sub_id = json_value_as_non_empty_string(client.field("subId"));
    let tg_id = json_value_as_non_empty_string(client.field("tgId"));
    let enabled = match client.bool_field("enable") {
        Some(b) => b,
        None => true,
    };
    let expiry_time: i64 = int_or_zero(client, "expiryTime");
    let inbound_remark = text_or_empty(inbound, "remark");
    let inbound_id: i64 = int_or_zero(inbound, "id");
    Some(
        ExistingSubscription {
            client_id,
            email,
            sub_id,
            tg_id,
            enabled,
            expiry_time,
            inbound_remark,
            inbound_id,
        },
    )
}

/// Appends the subscriptions of an inbound to `out`.
pub fn collect_inbound_subscriptions(value: &Json, out: &mut Vec<ExistingSubscription>)
    ensures
        subscription_models(final(out)@) == subscription_models(old(out)@) + inbound_subscriptions(
            value@,
        ),
{
    let ghost start = subscription_models(out@);
    let settings = match value.field("settings") {
        Some(v) => parse_json_field(v),
        None => None,
    };
    if let Some(settings) = settings {
        if let Some(clients) = settings.array_field("clients") {
            let ghost all = models(clients@);
            assert(start =~= start + subscriptions_of(value@, all.take(0)));
            let mut i: usize = 0;
            while i < clients.len()
                invariant
                    i <= clients@.len(),
                    all == models(clients@),
                    subscription_models(out@) == start + subscriptions_of(
                        value@,
                        all.take(i as int),
                    ),
                decreases clients@.len() - i,
            {
                let ghost before = out@;
                assert(all[i as int] == clients@[i as int]@);
                assert(all.take(i + 1).drop_last() =~= all.take(i as int));
                if let Some(sub) = client_subscription(value, &clients[i]) {
                    let ghost model = sub@;
                    out.push(sub);
                    assert(subscription_models(out@) =~= subscription_models(before).push(model));
                    assert(subscription_models(out@) =~= start + subscriptions_of(
                        value@,
                        all.take(i + 1),
                    ));
                }
                i = i + 1;
            }
            assert(all.take(i as int) =~= all);
            assert(inbound_subscriptions(value@) == subscriptions_of(value@, all));
            return ;
        }
    }
    assert(start =~= start + inbound_subscriptions(value@));
}

/// The subscriptions in what a panel answers.
pub fn listed_subscriptions(obj: &Option<Json>) -> (r: Vec<ExistingSubscription>)
    ensures
        subscription_models(r@) == listed(
            match obj {
                Some(v) => Some(v@),
                None => None,
            },
        ),
{
    let mut out: Vec<ExistingSubscription> = Vec::new();
    match obj {
        Some(Json::Array(inbounds)) => {
            proof {
                Json::array_view(*inbounds);
            }
            let ghost all = models(inbounds@);
            assert(subscription_models(out@) =~= subscriptions_of_all(all.take(0)));
            let mut i: usize = 0;
            while i < inbounds.len()
                invariant
                    i <= inbounds@.len(),
                    all == models(inbounds@),
                    subscription_models(out@) == subscriptions_of_all(all.take(i as int)),
                decreases inbounds@.len() - i,
            {
                assert(all[i as int] == inbounds@[i as int]@);
                assert(all.take(i + 1).drop_last() =~= all.take(i as int));
                collect_inbound_subscriptions(&inbounds[i], &mut out);
                i = i + 1;
            }
            assert(all.take(i as int) =~= all);
        },
        Some(inbound) => {
            let ghost start = subscription_models(out@);
            collect_inbound_subscriptions(inbound, &mut out);
            assert(start + inbound_subscriptions(inbound@) =~= inbound_subscriptions(inbound@));
        },
        None => {
            assert(subscription_models(out@) =~= seq![]);
        },
    }
    out
}

/// Where the login's subscription is found under `base`.
pub fn find_subscription_link(subs: &Vec<ExistingSubscription>, login: &str, base: &str) -> (r:
    Option<String>)
    ensures
        r.deep_view() == subscription_link(subscription_models(subs@), login@, base@),
{
    let ghost all = subscription_models(subs@);
    let wanted = normalize_login(login);
    assert(all.skip(0) =~= all);
    let mut i: usize = 0;
    while i < subs.len()
        invariant
            i <= subs@.len(),
            all == subscription_models(subs@),
            wanted@ == normalized(login@),
            first_of_login(all, login@) == first_of_login(all.skip(i as int), login@),
        decreases subs@.len() - i,
    {
        assert(all.skip(i as int)[0] == subs@[i as int]@);
        if text_eq(&normalize_login(&subs[i].email), &wanted) {
            let id = match &subs[i].sub_id {
                Some(id) => trim_text(id),
                None => {
                    return None;
                },
            };
            if id.as_str().is_empty() {
                return None;
            }
            let mut link = base.to_string();
            link.append(&id);
            return Some(link);
        }
        assert(all.skip(i as int).drop_first() =~= all.skip(i + 1));
        i = i + 1;
    }
    None
}

/// The positions of the subscriptions of that login.
pub fn positions_of_login(subs: &Vec<ExistingSubscription>, login: &str) -> (r: Vec<usize>)
    ensures
        forall|k: int| 0 <= k < r@.len() ==> (#[trigger] r@[k]) < subs@.len(),
        Seq::new(r@.len(), |k: int| subs@[r@[k] as int]@) == all_of_login(
            subscription_models(subs@),
            login@,
        ),
{
    let ghost all = subscription_models(subs@);
    let ghost wanted_here = |s: SubscriptionModel| is_of(s, login@);
    let wanted = normalize_login(login);
    let mut out: Vec<usize> = Vec::new();
    let mut i: usize = 0;
    proof {
        reveal(Seq::filter);
    }
    assert(Seq::new(out@.len(), |k: int| subs@[out@[k] as int]@) =~= all.take(0).filter(
        wanted_here,
    ));
    while i < subs.len()
        invariant
            i <= subs@.len(),
            all == subscription_models(subs@),
            wanted@ == normalized(login@),
            wanted_here == |s: SubscriptionModel| is_of(s, login@),
            forall|k: int| 0 <= k < out@.len() ==> (#[trigger] out@[k]) < subs@.len(),
            Seq::new(out@.len(), |k: int| subs@[out@[k] as int]@) == all.take(i as int).filter(
                wanted_here,
            ),
        decreases subs@.len() - i,
    {
        proof {
            reveal(Seq::filter);
        }
        let ghost before = Seq::new(out@.len(), |k: int| subs@[out@[k] as int]@);
        assert(all[i as int] == subs@[i as int]@);
        assert(all.take(i + 1).drop_last() =~= all.take(i as int));
        if text_eq(&normalize_login(&subs[i].email), &wanted) {
            out.push(i);
            assert(Seq::new(out@.len(), |k: int| subs@[out@[k] as int]@) =~= before.push(
                all[i as int],
            ));
        }
        i = i + 1;
    }
    assert(all.take(i as int) =~= all);
    out
}

} // verus!
