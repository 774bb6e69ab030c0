//! What approvers see of subscriptions and servers.

use vstd::prelude::*;

use crate::health::{format_results, result_models, results_text, CheckResult, ResultModel};
use crate::panel::login::{normalize_login, normalized};
use crate::panel::models::{
    client_models, inbound_models, Client, ClientModel, Inbound, InboundModel, ServerStatus,
    StatusModel,
};
use crate::text::chars::parts_stand_at_the_ends;
use crate::text::number::{append_u64, decimal, decimal_int, i64_text};
use crate::text::order::{
    in_order, insert_by, positions, sort_by, sort_by_sorts, sort_of_images, sort_texts, sorted,
    sorted_ignores_order, sorted_positions, text_le,
};
use crate::text::size::bytes_text;
use crate::text::split::{join, join_texts};

use super::ui::{
    duration_text, format_bytes, format_duration, format_login, format_unix, shown_login, unix_text,
};

verus! {

/// The name of the last inbound with that number, or the number.
pub open spec fn inbound_name(inbounds: Seq<InboundModel>, id: i64) -> Seq<char>
    decreases inbounds.len(),
{
    if inbounds.len() == 0 {
        decimal_int(id as int)
    } else if inbounds.last().id == id {
        inbounds.last().remark
    } else {
        inbound_name(inbounds.drop_last(), id)
    }
}

/// When the access of a client ends.
pub open spec fn expiry_text(client: ClientModel) -> Seq<char> {
    if client.expiry_time > 0 {
        unix_text((client.expiry_time / 1000) as i64)
    } else {
        "бессрочно"@
    }
}

/// The Telegram identifier of a client, where it has one.
pub open spec fn chat_text(client: ClientModel) -> Seq<char> {
    match client.chat() {
        Some(id) => decimal_int(id as int),
        None => "-"@,
    }
}

/// The inbounds of a client.
pub open spec fn inbounds_text(client: ClientModel, inbounds: Seq<InboundModel>) -> Seq<char> {
    join(client.inbound_ids.map_values(|id: i64| inbound_name(inbounds, id)), ", "@)
}

/// What is shown of a client.
pub open spec fn client_line(client: ClientModel, inbounds: Seq<InboundModel>) -> Seq<char> {
    (if client.enabled {
        "🟢"@
    } else {
        "⚪️"@
    }) + " "@ + shown_login(client.login) + " | tg "@ + chat_text(client) + " | "@ + expiry_text(
        client,
    ) + " | "@ + inbounds_text(client, inbounds)
}

/// The clients in the order of their logins.
pub open spec fn in_login_order(clients: Seq<ClientModel>) -> Seq<ClientModel> {
    sort_by(clients, |c: ClientModel| normalized(c.login))
}

/// What is shown of all clients: how many there are, then one in each line.
pub open spec fn subscriptions_lines(clients: Seq<ClientModel>, inbounds: Seq<InboundModel>) -> Seq<
    Seq<char>,
> {
    seq!["Подписок: "@ + decimal(clients.len())] + in_login_order(clients).map_values(
        |c: ClientModel| client_line(c, inbounds),
    )
}

/// An inbound is named after the last one with its number, and by its number where there is none.
pub proof fn last_inbound_gives_the_name(inbounds: Seq<InboundModel>, id: i64, i: int)
    requires
        -1 <= i < inbounds.len(),
        i >= 0 ==> inbounds[i].id == id,
        forall|j: int| i < j < inbounds.len() ==> (#[trigger] inbounds[j]).id != id,
    ensures
        inbound_name(inbounds, id) == if i >= 0 {
            inbounds[i].remark
        } else {
            decimal_int(id as int)
        },
    decreases inbounds.len(),
{
    if i < inbounds.len() - 1 {
        assert(inbounds[inbounds.len() - 1].id != id);
        let rest = inbounds.drop_last();
        assert forall|j: int| i < j < rest.len() implies (#[trigger] rest[j]).id != id by {
            assert(inbounds[j].id != id);
        }
        last_inbound_gives_the_name(rest, id, i);
    }
}

/// The line of a client starts with a mark that tells enabled clients from disabled ones, then come
/// the login, the Telegram identifier where it is one, the end of the access where there is one,
/// and the inbounds.
pub proof fn client_line_shows_the_client(client: ClientModel, inbounds: Seq<InboundModel>)
    ensures
        client.enabled ==> ("🟢 "@ + shown_login(client.login)).is_prefix_of(
            client_line(client, inbounds),
        ),
        !client.enabled ==> ("⚪️ "@ + shown_login(client.login)).is_prefix_of(
            client_line(client, inbounds),
        ),
        client_line(client, inbounds) != client_line(
            (ClientModel { enabled: !client.enabled, ..client }),
            inbounds,
        ),
        (" | tg "@ + (if client.tg_id > 0 {
            decimal_int(client.tg_id as int)
        } else {
            "-"@
        }) + " | "@ + (if client.expiry_time > 0 {
            unix_text((client.expiry_time / 1000) as i64)
        } else {
            "бессрочно"@
        }) + " | "@ + inbounds_text(client, inbounds)).is_suffix_of(client_line(client, inbounds)),
        client_line(client, inbounds).len() == (if client.enabled {
            "🟢 "@.len()
        } else {
            "⚪️ "@.len()
        }) + shown_login(client.login).len() + (" | tg "@ + chat_text(client) + " | "@ + expiry_text(
            client,
        ) + " | "@ + inbounds_text(client, inbounds)).len(),
{
    reveal_strlit("🟢");
    reveal_strlit("⚪️");
    reveal_strlit("🟢 ");
    reveal_strlit("⚪️ ");
    reveal_strlit(" ");
    let mark = if client.enabled {
        "🟢"@
    } else {
        "⚪️"@
    };
    let head = mark + " "@ + shown_login(client.login);
    let tail = " | tg "@ + chat_text(client) + " | "@ + expiry_text(client) + " | "@ + inbounds_text(
        client,
        inbounds,
    );
    assert("🟢"@ + " "@ =~= "🟢 "@);
    assert("⚪️"@ + " "@ =~= "⚪️ "@);
    assert(client_line(client, inbounds) =~= head + tail);
    assert(head =~= (head + tail).subrange(0, head.len() as int));
    assert(tail =~= (head + tail).subrange(head.len() as int, (head + tail).len() as int));
    let other = ClientModel { enabled: !client.enabled, ..client };
    assert(client_line(client, inbounds)[0] == mark[0]);
    assert(client_line(other, inbounds)[0] == if other.enabled {
        "🟢"@[0]
    } else {
        "⚪️"@[0]
    });
}

/// A client's inbounds are named in their order, with commas between them: one more inbound adds
/// one more name.
pub proof fn each_inbound_of_a_client_is_named(
    client: ClientModel,
    inbounds: Seq<InboundModel>,
    id: i64,
)
    ensures
        client.inbound_ids.len() == 0 ==> inbounds_text(client, inbounds) == Seq::<char>::empty(),
        inbounds_text(
            (ClientModel { inbound_ids: client.inbound_ids.push(id), ..client }),
            inbounds,
        ) == if client.inbound_ids.len() == 0 {
            inbound_name(inbounds, id)
        } else {
            inbounds_text(client, inbounds) + ", "@ + inbound_name(inbounds, id)
        },
{
    let named = |id: i64| inbound_name(inbounds, id);
    let names = client.inbound_ids.map_values(named);
    assert(client.inbound_ids.push(id).map_values(named) =~= names.push(inbound_name(inbounds, id)));
    assert(names.push(inbound_name(inbounds, id)).drop_last() =~= names);
}

/// All clients are listed: the head counts them, every client has its own line and nothing else
/// has one, and the lines stand in the order of the logins.
pub proof fn every_client_is_listed(clients: Seq<ClientModel>, inbounds: Seq<InboundModel>)
    ensures
        subscriptions_lines(clients, inbounds).len() == clients.len() + 1,
        subscriptions_lines(clients, inbounds)[0] == "Подписок: "@ + decimal(clients.len()),
        forall|i: int|
            0 <= i < clients.len() ==> subscriptions_lines(clients, inbounds)[i + 1]
                == client_line(#[trigger] in_login_order(clients)[i], inbounds),
        in_login_order(clients).to_multiset() == clients.to_multiset(),
        in_order(in_login_order(clients), |c: ClientModel| normalized(c.login)),
{
    sort_by_sorts(clients, |c: ClientModel| normalized(c.login));
}

fn name_of_inbound(inbounds: &Vec<Inbound>, id: i64) -> (r: String)
    ensures
        r@ == inbound_name(inbound_models(inbounds@), id),
{
    let ghost all = inbound_models(inbounds@);
    let mut n: usize = inbounds.len();
    assert(all.take(n as int) =~= all);
    while n > 0
        invariant
            n <= inbounds@.len(),
            all == inbound_models(inbounds@),
            inbound_name(all, id) == inbound_name(all.take(n as int), id),
        decreases n,
    {
        assert(all.take(n as int).last() == inbounds@[n - 1]@);
        assert(all.take(n as int).drop_last() =~= all.take(n - 1));
        if inbounds[n - 1].id == id {
            return inbounds[n - 1].remark.clone();
        }
        n = n - 1;
    }
    i64_text(id)
}

fn inbound_list(client: &Client, inbounds: &Vec<Inbound>) -> (r: String)
    ensures
        r@ == inbounds_text(client@, inbound_models(inbounds@)),
{
    let ghost named = |id: i64| inbound_name(inbound_models(inbounds@), id);
    let ghost all = client.inbound_ids@.map_values(named);
    let mut names: Vec<String> = Vec::new();
    let mut i: usize = 0;
    assert(names.deep_view() =~= all.take(0));
    while i < client.inbound_ids.len()
        invariant
            i <= client.inbound_ids@.len(),
            named == |id: i64| inbound_name(inbound_models(inbounds@), id),
            all == client.inbound_ids@.map_values(named),
            names.deep_view() == all.take(i as int),
        decreases client.inbound_ids@.len() - i,
    {
        let ghost before = names.deep_view();
        let name = name_of_inbound(inbounds, client.inbound_ids[i]);
        let ghost text = name@;
        names.push(name);
        assert(names.deep_view() =~= before.push(text));
        assert(all.take(i + 1) =~= all.take(i as int).push(all[i as int]));
        i = i + 1;
    }
    assert(all.take(i as int) =~= all);
    join_texts(&names, ", ")
}

fn show_client(client: &Client, inbounds: &Vec<Inbound>) -> (r: String)
    ensures
        r@ == client_line(client@, inbound_models(inbounds@)),
{
    let mut line = if client.enabled {
        "🟢".to_string()
    } else {
        "⚪️".to_string()
    };
    line.append(" ");
    line.append(&format_login(&client.login));
    line.append(" | tg ");
    let chat = match client.telegram_chat_id() {
        Some(id) => i64_text(id),
        None => "-".to_string(),
    };
    line.append(&chat);
    line.append(" | ");
    let expiry = if client.expiry_time > 0 {
        format_unix(client.expiry_time / 1000)
    } else {
        "бессрочно".to_string()
    };
    line.append(&expiry);
    line.append(" | ");
    line.append(&inbound_list(client, inbounds));
    line
}

fn login_keys(clients: &Vec<Client>) -> (r: Vec<String>)
    ensures
        r@.len() == clients@.len(),
        forall|i: int| 0 <= i < r@.len() ==> (#[trigger] r@[i])@ == normalized(clients@[i]@.login),
{
    let mut keys: Vec<String> = Vec::new();
    let mut i: usize = 0;
    while i < clients.len()
        invariant
            i <= clients@.len(),
            keys@.len() == i,
            forall|j: int|
                0 <= j < i ==> (#[trigger] keys@[j])@ == normalized(clients@[j]@.login),
        decreases clients@.len() - i,
    {
        keys.push(normalize_login(&clients[i].login));
        i = i + 1;
    }
    keys
}

/// What is shown of all clients.
pub fn subscriptions(clients: &Vec<Client>, inbounds: &Vec<Inbound>) -> (r: String)
    ensures
        r@ == join(
            subscriptions_lines(client_models(clients@), inbound_models(inbounds@)),
            "\n"@,
        ),
{
    let ghost all = client_models(clients@);
    let ghost known = inbound_models(inbounds@);
    let ghost ordered = in_login_order(all);
    let ghost shown = ordered.map_values(|c: ClientModel| client_line(c, known));
    let keys = login_keys(clients);
    let order = sorted_positions(&keys);
    proof {
        let model = |i: int| all[i];
        let key = |c: ClientModel| normalized(c.login);
        let n = clients@.len();
        sort_of_images(positions(n), model, key);
        assert(positions(n).map_values(model) =~= all);
        same_keys(positions(n), |i: int| keys@[i]@, |i: int| key(model(i)));
        assert(order@.map_values(|i: usize| i as int).map_values(model) =~= ordered);
    }
    let mut lines: Vec<String> = Vec::new();
    let mut head = "Подписок: ".to_string();
    append_u64(&mut head, clients.len() as u64);
    let ghost first = head@;
    lines.push(head);
    assert(lines.deep_view() =~= seq![first] + shown.take(0));
    let mut i: usize = 0;
    while i < order.len()
        invariant
            i <= order@.len(),
            order@.len() == clients@.len(),
            all == client_models(clients@),
            known == inbound_models(inbounds@),
            ordered.len() == order@.len(),
            forall|k: int| 0 <= k < order@.len() ==> (#[trigger] order@[k]) < clients@.len(),
            forall|k: int| 0 <= k < order@.len() ==> all[(#[trigger] order@[k]) as int] == ordered[k],
            shown == ordered.map_values(|c: ClientModel| client_line(c, known)),
            lines.deep_view() == seq![first] + shown.take(i as int),
        decreases order@.len() - i,
    {
        let ghost before = lines.deep_view();
        assert(all[order@[i as int] as int] == ordered[i as int]);
        let line = show_client(&clients[order[i]], inbounds);
        let ghost text = line@;
        lines.push(line);
        assert(lines.deep_view() =~= before.push(text));
        assert(seq![first] + shown.take(i + 1) =~= (seq![first] + shown.take(i as int)).push(
            shown[i as int],
        ));
        i = i + 1;
    }
    assert(shown.take(i as int) =~= shown);
    join_texts(&lines, "\n")
}

/// Sorting depends on the keys of the elements alone.
pub proof fn same_keys(s: Seq<int>, a: spec_fn(int) -> Seq<char>, b: spec_fn(int) -> Seq<char>)
    requires
        forall|i: int| 0 <= i < s.len() ==> a(#[trigger] s[i]) == b(s[i]),
    ensures
        sort_by(s, a) == sort_by(s, b),
        forall|x: int| sort_by(s, b).contains(x) ==> s.contains(x),
    decreases s.len(),
{
    if s.len() > 0 {
        let head = s.drop_last();
        assert forall|i: int| 0 <= i < head.len() implies a(#[trigger] head[i]) == b(head[i]) by {
            assert(a(s[i]) == b(s[i]));
        }
        same_keys(head, a, b);
        assert(a(s[s.len() - 1]) == b(s[s.len() - 1]));
        let placed = sort_by(head, b);
        assert forall|x: int| placed.contains(x) implies a(x) == b(x) && s.contains(x) by {
            assert(head.contains(x));
            let k = choose|k: int| 0 <= k < head.len() && head[k] == x;
            assert(s[k] == x);
            assert(a(s[k]) == b(s[k]));
        }
        same_place(placed, s.last(), a, b);
        assert forall|x: int| sort_by(s, b).contains(x) implies s.contains(x) by {
            if x == s.last() {
                assert(s[s.len() - 1] == x);
            } else {
                assert(placed.contains(x));
            }
        }
    }
}

proof fn same_place(
    s: Seq<int>,
    x: int,
    a: spec_fn(int) -> Seq<char>,
    b: spec_fn(int) -> Seq<char>,
)
    requires
        a(x) == b(x),
        forall|y: int| s.contains(y) ==> a(y) == b(y),
    ensures
        insert_by(s, x, a) == insert_by(s, x, b),
        forall|y: int|
            insert_by(s, x, b).contains(y) ==> y == x || s.contains(y),
    decreases s.len(),
{
    let placed = insert_by(s, x, b);
    if s.len() > 0 {
        let head = s.drop_last();
        assert(s.contains(s[s.len() - 1]));
        assert forall|y: int| head.contains(y) implies a(y) == b(y) && s.contains(y) by {
            let k = choose|k: int| 0 <= k < head.len() && head[k] == y;
            assert(s[k] == y);
            assert(s.contains(y));
        }
        same_place(head, x, a, b);
        assert forall|y: int| placed.contains(y) implies y == x || s.contains(y) by {
            let k = choose|k: int| 0 <= k < placed.len() && placed[k] == y;
            if text_le(b(s.last()), b(x)) {
                if k < s.len() {
                    assert(s[k] == y);
                }
            } else {
                let inner = insert_by(head, x, b);
                if k < inner.len() {
                    assert(inner[k] == y);
                    assert(inner.contains(y));
                } else {
                    assert(s[s.len() - 1] == y);
                }
            }
        }
    }
}

/// What is shown of the chain.
pub open spec fn chain_section(results: Option<Seq<ResultModel>>) -> Seq<char> {
    match results {
        Some(results) => "Цепочка:\n"@ + results_text(results),
        None => "Цепочка: проверки выключены (HEALTH_RELAY_ADDR не задан)"@,
    }
}

/// The section of the chain lists the results, or says that there are none to list.
pub proof fn chain_lists_its_results(results: Seq<ResultModel>)
    ensures
        results_text(results).is_suffix_of(chain_section(Some(results))),
        chain_section(Some(results)).len() == 9 + results_text(results).len(),
        "Цепочка:\n"@.is_prefix_of(chain_section(Some(results))),
        chain_section(None) == "Цепочка: проверки выключены (HEALTH_RELAY_ADDR не задан)"@,
{
    reveal_strlit("Цепочка:\n");
    parts_stand_at_the_ends("Цепочка:\n"@, results_text(results), results_text(results));
}

/// What is shown of the exit server.
pub open spec fn server_section(server: Result<StatusModel, Seq<char>>) -> Seq<char> {
    match server {
        Ok(s) => "Выходной сервер:\nxray: "@ + (match s.xray_state {
            Some(state) => state,
            None => "?"@,
        }) + "\nCPU: "@ + s.cpu_percent + "%\nRAM: "@ + bytes_text(s.mem_used) + " / "@
            + bytes_text(s.mem_total) + "\nДиск: "@ + bytes_text(s.disk_used) + " / "@
            + bytes_text(s.disk_total) + "\nАптайм: "@ + duration_text(s.uptime_secs),
        Err(e) => "Выходной сервер: ошибка "@ + e,
    }
}

/// What is shown of who is online.
pub open spec fn online_section(online: Result<Seq<Seq<char>>, Seq<char>>) -> Seq<char> {
    match online {
        Ok(logins) => "Онлайн ("@ + decimal(logins.len()) + "): "@ + (if logins.len() == 0 {
            "никого"@
        } else {
            join(sorted(logins).map_values(|l: Seq<char>| shown_login(l)), ", "@)
        }),
        Err(e) => "Онлайн: ошибка "@ + e,
    }
}

/// What is shown of the traffic of an inbound.
pub open spec fn traffic_line(inbound: InboundModel) -> Seq<char> {
    "• "@ + inbound.remark + (if inbound.enabled {
        ""@
    } else {
        " (выкл)"@
    }) + ": ↑"@ + bytes_text(inbound.up) + " ↓"@ + bytes_text(inbound.down)
}

/// The line of an inbound carries the mark of a switched-off one exactly where the inbound is
/// disabled, between its name and its traffic.
pub proof fn only_disabled_inbounds_are_marked(inbound: InboundModel)
    ensures
        inbound.enabled ==> traffic_line(inbound) == "• "@ + inbound.remark + ": ↑"@ + bytes_text(
            inbound.up,
        ) + " ↓"@ + bytes_text(inbound.down),
        !inbound.enabled ==> traffic_line(inbound) == "• "@ + inbound.remark + " (выкл): ↑"@
            + bytes_text(inbound.up) + " ↓"@ + bytes_text(inbound.down),
        traffic_line(inbound) != traffic_line(
            (InboundModel { enabled: !inbound.enabled, ..inbound }),
        ),
{
    reveal_strlit("");
    reveal_strlit("• ");
    reveal_strlit(": ↑");
    reveal_strlit(" (выкл)");
    reveal_strlit(" (выкл): ↑");
    let start = "• "@ + inbound.remark;
    assert(start + ""@ =~= start);
    assert(" (выкл)"@ + ": ↑"@ =~= " (выкл): ↑"@);
    assert((start + " (выкл)"@) + ": ↑"@ =~= start + " (выкл): ↑"@);
    let other = InboundModel { enabled: !inbound.enabled, ..inbound };
    let n = start.len() as int;
    assert(traffic_line(inbound)[n] == if inbound.enabled {
        ':'
    } else {
        ' '
    });
    assert(traffic_line(other)[n] == if other.enabled {
        ':'
    } else {
        ' '
    });
}

/// What is shown of the traffic.
pub open spec fn traffic_section(inbounds: Result<Seq<InboundModel>, Seq<char>>) -> Seq<char> {
    match inbounds {
        Ok(inbounds) => "Трафик за всё время:\n"@ + join(
            inbounds.map_values(|i: InboundModel| traffic_line(i)),
            "\n"@,
        ),
        Err(e) => "Трафик: ошибка "@ + e,
    }
}

/// Every inbound has its line, in order: one more inbound adds one more line.
pub proof fn each_inbound_has_its_line(inbounds: Seq<InboundModel>, last: InboundModel)
    ensures
        traffic_section(Ok(seq![last])) == "Трафик за всё время:\n"@ + traffic_line(last),
        inbounds.len() > 0 ==> traffic_section(Ok(inbounds.push(last))) == traffic_section(
            Ok(inbounds),
        ) + "\n"@ + traffic_line(last),
{
    let show = |i: InboundModel| traffic_line(i);
    let lines = inbounds.map_values(show);
    assert(seq![last].map_values(show) =~= seq![traffic_line(last)]);
    assert(inbounds.push(last).map_values(show) =~= lines.push(traffic_line(last)));
    assert(lines.push(traffic_line(last)).drop_last() =~= lines);
    if inbounds.len() > 0 {
        let head = "Трафик за всё время:\n"@;
        assert(head + (join(lines, "\n"@) + "\n"@ + traffic_line(last)) =~= head + join(
            lines,
            "\n"@,
        ) + "\n"@ + traffic_line(last));
    }
}

/// What is shown of everything.
pub open spec fn status_sections(
    chain: Option<Seq<ResultModel>>,
    server: Result<StatusModel, Seq<char>>,
    online: Result<Seq<Seq<char>>, Seq<char>>,
    inbounds: Result<Seq<InboundModel>, Seq<char>>,
) -> Seq<Seq<char>> {
    seq![
        chain_section(chain),
        server_section(server),
        online_section(online),
        traffic_section(inbounds),
    ]
}

/// The load of the exit server is shown line by line, each figure behind its name, the used part
/// before the whole; an error is quoted.
pub proof fn server_figures_stand_in_their_lines(s: StatusModel, e: Seq<char>)
    ensures
        server_section(Ok(s)) == "Выходной сервер:"@ + ("\nxray: "@ + (match s.xray_state {
            Some(state) => state,
            None => "?"@,
        })) + ("\nCPU: "@ + s.cpu_percent + "%"@) + ("\nRAM: "@ + bytes_text(s.mem_used) + " / "@
            + bytes_text(s.mem_total)) + ("\nДиск: "@ + bytes_text(s.disk_used) + " / "@
            + bytes_text(s.disk_total)) + ("\nАптайм: "@ + duration_text(s.uptime_secs)),
        server_section(Err(e)) == "Выходной сервер: ошибка "@ + e,
{
    reveal_strlit("Выходной сервер:");
    reveal_strlit("\nxray: ");
    reveal_strlit("Выходной сервер:\nxray: ");
    reveal_strlit("%");
    reveal_strlit("\nRAM: ");
    reveal_strlit("%\nRAM: ");
    assert("Выходной сервер:"@ + "\nxray: "@ =~= "Выходной сервер:\nxray: "@);
    assert("%"@ + "\nRAM: "@ =~= "%\nRAM: "@);
    let state = match s.xray_state {
        Some(state) => state,
        None => "?"@,
    };
    let one = "Выходной сервер:\nxray: "@ + state;
    assert("Выходной сервер:"@ + ("\nxray: "@ + state) =~= one);
    let two = one + "\nCPU: "@ + s.cpu_percent;
    let ram = bytes_text(s.mem_used) + " / "@ + bytes_text(s.mem_total);
    let disk = bytes_text(s.disk_used) + " / "@ + bytes_text(s.disk_total);
    let upper = two + "%\nRAM: "@ + bytes_text(s.mem_used) + " / "@ + bytes_text(s.mem_total);
    assert(upper =~= one + ("\nCPU: "@ + s.cpu_percent + "%"@) + ("\nRAM: "@ + bytes_text(
        s.mem_used,
    ) + " / "@ + bytes_text(s.mem_total)));
    let lower = upper + "\nДиск: "@ + bytes_text(s.disk_used) + " / "@ + bytes_text(s.disk_total);
    assert(lower =~= upper + ("\nДиск: "@ + bytes_text(s.disk_used) + " / "@ + bytes_text(
        s.disk_total,
    )));
    assert(lower + "\nАптайм: "@ + duration_text(s.uptime_secs) =~= lower + ("\nАптайм: "@
        + duration_text(s.uptime_secs)));
}

/// Who is online is counted and listed; the order in which the logins came does not matter, and
/// where nobody is online, that is said.
pub proof fn online_logins_are_counted_and_listed(
    logins: Seq<Seq<char>>,
    shuffled: Seq<Seq<char>>,
    e: Seq<char>,
)
    requires
        logins.to_multiset() == shuffled.to_multiset(),
    ensures
        online_section(Ok(logins)) == online_section(Ok(shuffled)),
        logins.len() == 0 ==> online_section(Ok(logins)) == "Онлайн ("@ + decimal(0) + "): "@
            + "никого"@,
        logins.len() == 1 ==> online_section(Ok(logins)) == "Онлайн ("@ + decimal(1) + "): "@
            + shown_login(logins[0]),
        logins.len() > 0 ==> online_section(Ok(logins)) == "Онлайн ("@ + decimal(logins.len())
            + "): "@ + join(sorted(logins).map_values(|l: Seq<char>| shown_login(l)), ", "@),
        online_section(Err(e)) == "Онлайн: ошибка "@ + e,
{
    logins.to_multiset_ensures();
    shuffled.to_multiset_ensures();
    assert(logins.len() == shuffled.len());
    sorted_ignores_order(logins, shuffled);
    if logins.len() == 1 {
        let key = |t: Seq<char>| t;
        reveal_with_fuel(sort_by, 2);
        assert(logins.drop_last() =~= seq![]);
        assert(sorted(logins) =~= seq![logins[0]]);
        assert(sorted(logins).map_values(|l: Seq<char>| shown_login(l)) =~= seq![
            shown_login(logins[0]),
        ]);
    }
}

/// Everything is shown in four sections: the chain, the exit server, who is online, the traffic.
/// The chain is the lines of its results, or a hint that the checks are switched off.
pub proof fn status_has_its_four_sections(
    results: Seq<ResultModel>,
    server: Result<StatusModel, Seq<char>>,
    online: Result<Seq<Seq<char>>, Seq<char>>,
    inbounds: Result<Seq<InboundModel>, Seq<char>>,
    e: Seq<char>,
)
    ensures
        join(status_sections(Some(results), server, online, inbounds), "\n\n"@) == "Цепочка:\n"@
            + results_text(results) + "\n\n"@ + server_section(server) + "\n\n"@ + online_section(
            online,
        ) + "\n\n"@ + traffic_section(inbounds),
        join(status_sections(None, server, online, inbounds), "\n\n"@)
            == "Цепочка: проверки выключены (HEALTH_RELAY_ADDR не задан)"@ + "\n\n"@
            + server_section(server) + "\n\n"@ + online_section(online) + "\n\n"@
            + traffic_section(inbounds),
        traffic_section(Err(e)) == "Трафик: ошибка "@ + e,
{
    reveal_with_fuel(join, 4);
    let a = status_sections(Some(results), server, online, inbounds);
    let b = status_sections(None, server, online, inbounds);
    assert(a.drop_last() =~= seq![a[0], a[1], a[2]]);
    assert(a.drop_last().drop_last() =~= seq![a[0], a[1]]);
    assert(a.drop_last().drop_last().drop_last() =~= seq![a[0]]);
    assert(b.drop_last() =~= seq![b[0], b[1], b[2]]);
    assert(b.drop_last().drop_last() =~= seq![b[0], b[1]]);
    assert(b.drop_last().drop_last().drop_last() =~= seq![b[0]]);
}

fn show_server(server: &Result<ServerStatus, String>) -> (r: String)
    ensures
        r@ == server_section(
            match server {
                Ok(s) => Ok(s@),
                Err(e) => Err(e@),
            },
        ),
{
    match server {
        Ok(s) => {
            let mut text = "Выходной сервер:\nxray: ".to_string();
            match &s.xray_state {
                Some(state) => {
                    text.append(state);
                },
                None => {
                    text.append("?");
                },
            }
            text.append("\nCPU: ");
            text.append(&s.cpu_percent);
            text.append("%\nRAM: ");
            text.append(&format_bytes(s.mem_used));
            text.append(" / ");
            text.append(&format_bytes(s.mem_total));
            text.append("\nДиск: ");
            text.append(&format_bytes(s.disk_used));
            text.append(" / ");
            text.append(&format_bytes(s.disk_total));
            text.append("\nАптайм: ");
            text.append(&format_duration(s.uptime_secs));
            text
        },
        Err(e) => {
            let mut text = "Выходной сервер: ошибка ".to_string();
            text.append(e);
            text
        },
    }
}

fn shown_logins(logins: &Vec<String>) -> (r: Vec<String>)
    ensures
        r.deep_view() == logins.deep_view().map_values(|l: Seq<char>| shown_login(l)),
{
    let ghost all = logins.deep_view().map_values(|l: Seq<char>| shown_login(l));
    let mut out: Vec<String> = Vec::new();
    let mut i: usize = 0;
    assert(out.deep_view() =~= all.take(0));
    while i < logins.len()
        invariant
            i <= logins@.len(),
            all == logins.deep_view().map_values(|l: Seq<char>| shown_login(l)),
            out.deep_view() == all.take(i as int),
        decreases logins@.len() - i,
    {
        let ghost before = out.deep_view();
        assert(logins.deep_view()[i as int] == logins@[i as int]@);
        let shown = format_login(&logins[i]);
        let ghost text = shown@;
        out.push(shown);
        assert(out.deep_view() =~= before.push(text));
        assert(all.take(i + 1) =~= all.take(i as int).push(all[i as int]));
        i = i + 1;
    }
    assert(all.take(i as int) =~= all);
    out
}

fn show_online(online: &Result<Vec<String>, String>) -> (r: String)
    ensures
        r@ == online_section(
            match online {
                Ok(logins) => Ok(logins.deep_view()),
                Err(e) => Err(e@),
            },
        ),
{
    match online {
        Ok(logins) => {
            let mut text = "Онлайн (".to_string();
            append_u64(&mut text, logins.len() as u64);
            text.append("): ");
            if logins.len() == 0 {
                text.append("никого");
            } else {
                text.append(&join_texts(&shown_logins(&sort_texts(logins)), ", "));
            }
            text
        },
        Err(e) => {
            let mut text = "Онлайн: ошибка ".to_string();
            text.append(e);
            text
        },
    }
}

fn show_inbound(inbound: &Inbound) -> (r: String)
    ensures
        r@ == traffic_line(inbound@),
{
    let mut line = "• ".to_string();
    line.append(&inbound.remark);
    line.append(
        if inbound.enabled {
            ""
        } else {
            " (выкл)"
        },
    );
    line.append(": ↑");
    line.append(&format_bytes(inbound.up));
    line.append(" ↓");
    line.append(&format_bytes(inbound.down));
    line
}

fn show_traffic(inbounds: &Result<Vec<Inbound>, String>) -> (r: String)
    ensures
        r@ == traffic_section(
            match inbounds {
                Ok(inbounds) => Ok(inbound_models(inbounds@)),
                Err(e) => Err(e@),
            },
        ),
{
    match inbounds {
        Ok(inbounds) => {
            let ghost all = inbound_models(inbounds@).map_values(|i: InboundModel| traffic_line(i));
            let mut lines: Vec<String> = Vec::new();
            let mut i: usize = 0;
            assert(lines.deep_view() =~= all.take(0));
            while i < inbounds.len()
                invariant
                    i <= inbounds@.len(),
                    all == inbound_models(inbounds@).map_values(
                        |i: InboundModel| traffic_line(i),
                    ),
                    lines.deep_view() == all.take(i as int),
                decreases inbounds@.len() - i,
            {
                let ghost before = lines.deep_view();
                let line = show_inbound(&inbounds[i]);
                let ghost text = line@;
                lines.push(line);
                assert(lines.deep_view() =~= before.push(text));
                assert(all.take(i + 1) =~= all.take(i as int).push(all[i as int]));
                i = i + 1;
            }
            assert(all.take(i as int) =~= all);
            let mut text = "Трафик за всё время:\n".to_string();
            text.append(&join_texts(&lines, "\n"));
            text
        },
        Err(e) => {
            let mut text = "Трафик: ошибка ".to_string();
            text.append(e);
            text
        },
    }
}

/// What is shown of everything: the chain, the exit server, who is online, and the traffic.
pub fn status(
    chain: Option<&Vec<CheckResult>>,
    server: &Result<ServerStatus, String>,
    online: &Result<Vec<String>, String>,
    inbounds: &Result<Vec<Inbound>, String>,
) -> (r: String)
    ensures
        r@ == join(
            status_sections(
                match chain {
                    Some(results) => Some(result_models(results@)),
                    None => None,
                },
                match server {
                    Ok(s) => Ok(s@),
                    Err(e) => Err(e@),
                },
                match online {
                    Ok(logins) => Ok(logins.deep_view()),
                    Err(e) => Err(e@),
                },
                match inbounds {
                    Ok(inbounds) => Ok(inbound_models(inbounds@)),
                    Err(e) => Err(e@),
                },
            ),
            "\n\n"@,
        ),
{
    let first = match chain {
        Some(results) => {
            let mut text = "Цепочка:\n".to_string();
            text.append(&format_results(results));
            text
        },
        None => "Цепочка: проверки выключены (HEALTH_RELAY_ADDR не задан)".to_string(),
    };
    let second = show_server(server);
    let third = show_online(online);
    let fourth = show_traffic(inbounds);
    let ghost all = seq![first@, second@, third@, fourth@];
    let mut sections: Vec<String> = Vec::new();
    sections.push(first);
    sections.push(second);
    sections.push(third);
    sections.push(fourth);
    assert(sections.deep_view() =~= all);
    join_texts(&sections, "\n\n")
}

} // verus!
