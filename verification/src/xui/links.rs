//! Links and subscriptions that an inbound's description holds.

use vstd::prelude::*;
use vstd::utf8::encode_utf8;

use crate::json::{
    array_field, entry_is_smaller, int_field, item_is_smaller, key_index, model_of, models, parse_json,
    str_field, Json, JsonModel,
};
use crate::outside::{
    can_be_built, form_byte_len, form_len, json_parsed, pairs_len, url_build, url_built, url_host,
    url_host_text, url_normal_text, without_fragment,
};
use crate::text::chars::{text_eq, trim, trim_text};
use crate::text::number::{append_i64, decimal_int};
use crate::text::split::{find_char_is_first, split, split_at_char, split_once_at};

use super::candidates::first_where;

verus! {

/// A setting of an inbound: given as a value, or as the text of one.
pub open spec fn embedded(value: JsonModel) -> Option<JsonModel> {
    match value {
        JsonModel::Str(s) => json_parsed(s),
        JsonModel::Object(_) => Some(value),
        JsonModel::Array(_) => Some(value),
        _ => None,
    }
}

/// The setting in the field `key`.
pub open spec fn embedded_field(value: JsonModel, key: Seq<char>) -> Option<JsonModel> {
    match value.field(key) {
        Some(v) => embedded(v),
        None => None,
    }
}

/// The first string among the items.
pub open spec fn first_str(items: Seq<JsonModel>) -> Option<Seq<char>>
    decreases items.len(),
{
    if items.len() == 0 {
        None
    } else if items[0].as_str() is Some {
        items[0].as_str()
    } else {
        first_str(items.drop_first())
    }
}

/// The first string of an array, or the first of the trimmed pieces between commas that is not
/// empty.
pub open spec fn first_of(value: Option<JsonModel>) -> Option<Seq<char>> {
    match value {
        Some(JsonModel::Array(items)) => first_str(items),
        Some(JsonModel::Str(s)) => first_where(
            split(s, ',').map_values(|p: Seq<char>| trim(p)),
            |p: Seq<char>| p.len() > 0,
        ),
        _ => None,
    }
}

/// The address that an inbound listens on, or the host of the panel.
pub open spec fn address_of(inbound: JsonModel, base_url: Seq<char>) -> Option<Seq<char>> {
    let listen = match str_field(inbound, "listen"@) {
        Some(s) => trim(s),
        None => trim(""@),
    };
    if listen.len() > 0 && listen != "0.0.0.0"@ {
        Some(listen)
    } else {
        url_host(base_url)
    }
}

/// The client is the one with that UUID or that e-mail. With `strict`, an empty UUID or e-mail
/// names nobody.
pub open spec fn is_client(
    client: JsonModel,
    email: Seq<char>,
    client_uuid: Seq<char>,
    strict: bool,
) -> bool {
    ((!strict || client_uuid.len() > 0) && str_field(client, "id"@) == Some(client_uuid)) || ((
    !strict || email.len() > 0) && str_field(client, "email"@) == Some(email))
}

/// The first such client.
pub open spec fn client_in(
    clients: Seq<JsonModel>,
    email: Seq<char>,
    client_uuid: Seq<char>,
    strict: bool,
) -> Option<JsonModel>
    decreases clients.len(),
{
    if clients.len() == 0 {
        None
    } else if is_client(clients[0], email, client_uuid, strict) {
        Some(clients[0])
    } else {
        client_in(clients.drop_first(), email, client_uuid, strict)
    }
}

/// The pairs, with one more where the value is there and not blank.
pub open spec fn with_pair(
    pairs: Seq<(Seq<char>, Seq<char>)>,
    key: Seq<char>,
    value: Option<Seq<char>>,
) -> Seq<(Seq<char>, Seq<char>)> {
    match value {
        Some(v) => if trim(v).len() > 0 {
            pairs.push((key, trim(v)))
        } else {
            pairs
        },
        None => pairs,
    }
}

/// The pairs, with the client's flow over TCP.
pub open spec fn with_flow(
    pairs: Seq<(Seq<char>, Seq<char>)>,
    client: JsonModel,
    network: Seq<char>,
) -> Seq<(Seq<char>, Seq<char>)> {
    if network == "tcp"@ {
        with_pair(pairs, "flow"@, str_field(client, "flow"@))
    } else {
        pairs
    }
}

/// The string in the field `key`, or `default`.
pub open spec fn str_or(value: JsonModel, key: Seq<char>, default: Seq<char>) -> Seq<char> {
    match str_field(value, key) {
        Some(s) => s,
        None => default,
    }
}

/// The pairs of a link over Reality.
pub open spec fn reality_pairs(
    pairs: Seq<(Seq<char>, Seq<char>)>,
    stream: JsonModel,
    client: JsonModel,
    network: Seq<char>,
) -> Option<Seq<(Seq<char>, Seq<char>)>> {
    match stream.field("realitySettings"@) {
        Some(reality) => match reality.field("settings"@) {
            Some(settings) => {
                let p = pairs.push(("security"@, "reality"@));
                let p = with_pair(p, "pbk"@, str_field(settings, "publicKey"@));
                let p = with_pair(p, "fp"@, str_field(settings, "fingerprint"@));
                let p = with_pair(p, "sni"@, first_of(reality.field("serverNames"@)));
                let p = with_pair(p, "sid"@, first_of(reality.field("shortIds"@)));
                let p = with_pair(p, "spx"@, str_field(settings, "spiderX"@));
                Some(with_flow(p, client, network))
            },
            None => None,
        },
        None => None,
    }
}

/// The fingerprint in the settings of a TLS stream.
pub open spec fn tls_fingerprint(tls: JsonModel) -> Option<Seq<char>> {
    match tls.field("settings"@) {
        Some(settings) => str_field(settings, "fingerprint"@),
        None => None,
    }
}

/// The pairs of a link over TLS.
pub open spec fn tls_pairs(
    pairs: Seq<(Seq<char>, Seq<char>)>,
    stream: JsonModel,
    client: JsonModel,
    network: Seq<char>,
) -> Seq<(Seq<char>, Seq<char>)> {
    let p = pairs.push(("security"@, "tls"@));
    let p = match stream.field("tlsSettings"@) {
        Some(tls) => with_pair(
            with_pair(p, "fp"@, tls_fingerprint(tls)),
            "sni"@,
            str_field(tls, "serverName"@),
        ),
        None => p,
    };
    with_flow(p, client, network)
}

/// The query pairs of a link to the client.
pub open spec fn link_pairs(stream: JsonModel, client: JsonModel) -> Option<
    Seq<(Seq<char>, Seq<char>)>,
> {
    let security = str_or(stream, "security"@, "none"@);
    let network = str_or(stream, "network"@, "tcp"@);
    let pairs = seq![("type"@, network)];
    if security == "reality"@ {
        reality_pairs(pairs, stream, client, network)
    } else if security == "tls"@ {
        Some(tls_pairs(pairs, stream, client, network))
    } else {
        Some(pairs.push(("security"@, "none"@)))
    }
}

/// What a link to the client starts with.
pub open spec fn link_base(inbound: JsonModel, base_url: Seq<char>, client: JsonModel) -> Option<
    Seq<char>,
> {
    match (address_of(inbound, base_url), int_field(inbound, "port"@), str_field(client, "id"@)) {
        (Some(address), Some(port), Some(uuid)) => Some(
            "vless://"@ + uuid + "@"@ + address + ":"@ + decimal_int(port as int),
        ),
        _ => None,
    }
}

/// What a link to the client ends with.
pub open spec fn link_fragment(inbound: JsonModel, client: JsonModel, email: Seq<char>) -> Seq<
    char,
> {
    str_or(inbound, "remark"@, "vpn"@) + "-"@ + str_or(client, "email"@, email)
}

/// The parts of a link.
#[derive(Debug)]
pub struct LinkParts {
    pub base: String,
    pub pairs: Vec<(String, String)>,
    pub fragment: String,
}

/// What the parts of a link are.
#[verifier::ext_equal]
pub struct LinkModel {
    pub base: Seq<char>,
    pub pairs: Seq<(Seq<char>, Seq<char>)>,
    pub fragment: Seq<char>,
}

impl View for LinkParts {
    type V = LinkModel;

    open spec fn view(&self) -> LinkModel {
        LinkModel { base: self.base@, pairs: self.pairs.deep_view(), fragment: self.fragment@ }
    }
}

impl LinkModel {
    /// The positions in the link fit into the 32 bits that a URL keeps for each.
    pub open spec fn fits(self) -> bool {
        can_be_built(self.base, self.pairs)
    }

    /// The link that the parts make, if they fit and make one.
    pub open spec fn built(self) -> Option<Seq<char>> {
        if self.fits() {
            url_built(self.base, self.pairs, self.fragment)
        } else {
            None
        }
    }
}

/// Parts that may be missing, as models.
pub open spec fn link_model(r: Option<LinkParts>) -> Option<LinkModel> {
    match r {
        Some(parts) => Some(parts@),
        None => None,
    }
}

/// The parts of a link to the client of a VLESS inbound.
pub open spec fn vless_parts(
    inbound: JsonModel,
    base_url: Seq<char>,
    email: Seq<char>,
    client_uuid: Seq<char>,
    strict: bool,
) -> Option<LinkModel> {
    if str_field(inbound, "protocol"@) != Some("vless"@) {
        None
    } else {
        match (
            embedded_field(inbound, "settings"@),
            embedded_field(inbound, "streamSettings"@),
        ) {
            (Some(settings), Some(stream)) => match array_field(settings, "clients"@) {
                Some(clients) => match client_in(clients, email, client_uuid, strict) {
                    Some(client) => match (
                        link_base(inbound, base_url, client),
                        link_pairs(stream, client),
                    ) {
                        (Some(base), Some(pairs)) => Some(
                            LinkModel {
                                base,
                                pairs,
                                fragment: link_fragment(inbound, client, email),
                            },
                        ),
                        _ => None,
                    },
                    None => None,
                },
                None => None,
            },
            _ => None,
        }
    }
}

/// The link to the client of a VLESS inbound.
pub open spec fn vless_link(
    inbound: JsonModel,
    base_url: Seq<char>,
    email: Seq<char>,
    client_uuid: Seq<char>,
    strict: bool,
) -> Option<Seq<char>> {
    match vless_parts(inbound, base_url, email, client_uuid, strict) {
        Some(parts) => parts.built(),
        None => None,
    }
}

/// The link to the client in a panel's object: in the object that it wraps, in the inbound that it
/// is, or in the first item of an array that gives one.
pub open spec fn link_in(
    value: JsonModel,
    base_url: Seq<char>,
    inbound_id: i64,
    email: Seq<char>,
    client_uuid: Seq<char>,
    strict: bool,
) -> Option<Seq<char>>
    decreases value, 0nat,
{
    match value {
        JsonModel::Array(items) => link_in_items(
            items,
            items.len(),
            base_url,
            inbound_id,
            email,
            client_uuid,
            strict,
        ),
        JsonModel::Object(entries) => {
            let k = key_index(entries, "obj"@) as int;
            if k < entries.len() {
                link_in(entries[k].1, base_url, inbound_id, email, client_uuid, strict)
            } else if int_field(value, "id"@) == Some(inbound_id) || value.field(
                "protocol"@,
            ) is Some {
                vless_link(value, base_url, email, client_uuid, strict)
            } else {
                None
            }
        },
        _ => None,
    }
}

/// The link to the client in the first of the first `n` items that gives one.
pub open spec fn link_in_items(
    items: Seq<JsonModel>,
    n: nat,
    base_url: Seq<char>,
    inbound_id: i64,
    email: Seq<char>,
    client_uuid: Seq<char>,
    strict: bool,
) -> Option<Seq<char>>
    decreases items, n,
{
    if n == 0 || n > items.len() {
        None
    } else {
        match link_in_items(
            items,
            (n - 1) as nat,
            base_url,
            inbound_id,
            email,
            client_uuid,
            strict,
        ) {
            Some(link) => Some(link),
            None => link_in(items[n - 1], base_url, inbound_id, email, client_uuid, strict),
        }
    }
}

/// A link leads to the address that the inbound listens on, and to the host of the panel where it
/// listens on all addresses or on none in particular.
pub proof fn link_leads_to_the_inbound(inbound: JsonModel, base_url: Seq<char>, listen: Seq<char>)
    ensures
        str_field(inbound, "listen"@) == Some(listen) && trim(listen).len() > 0 && trim(listen)
            != "0.0.0.0"@ ==> address_of(inbound, base_url) == Some(trim(listen)),
        str_field(inbound, "listen"@) == Some(listen) && (trim(listen).len() == 0 || trim(listen)
            == "0.0.0.0"@) ==> address_of(inbound, base_url) == url_host(base_url),
        str_field(inbound, "listen"@) is None ==> address_of(inbound, base_url) == url_host(
            base_url,
        ),
{
    reveal_strlit("");
    assert(trim(""@) =~= ""@);
}

/// A link starts with the scheme, the identifier of the client, and where the inbound is; it ends
/// with the name of the inbound and the e-mail of the client. Without an address, a port or an
/// identifier there is none.
pub proof fn link_names_client_and_inbound(
    inbound: JsonModel,
    base_url: Seq<char>,
    client: JsonModel,
    email: Seq<char>,
)
    ensures
        link_base(inbound, base_url, client) is Some <==> address_of(inbound, base_url) is Some
            && int_field(inbound, "port"@) is Some && str_field(client, "id"@) is Some,
        link_base(inbound, base_url, client) matches Some(base) ==> base == "vless://"@ + str_field(
            client,
            "id"@,
        )->0 + "@"@ + address_of(inbound, base_url)->0 + ":"@ + decimal_int(
            int_field(inbound, "port"@)->0 as int,
        ),
        str_field(inbound, "remark"@) matches Some(remark) ==> (remark + "-"@).is_prefix_of(
            link_fragment(inbound, client, email),
        ),
        str_field(inbound, "remark"@) is None ==> ("vpn"@ + "-"@).is_prefix_of(
            link_fragment(inbound, client, email),
        ),
        str_field(client, "email"@) matches Some(own) ==> ("-"@ + own).is_suffix_of(
            link_fragment(inbound, client, email),
        ),
        str_field(client, "email"@) is None ==> ("-"@ + email).is_suffix_of(
            link_fragment(inbound, client, email),
        ),
{
    let start = str_or(inbound, "remark"@, "vpn"@);
    let end = str_or(client, "email"@, email);
    let whole = link_fragment(inbound, client, email);
    assert(start + "-"@ =~= whole.subrange(0, (start + "-"@).len() as int));
    assert("-"@ + end =~= whole.subrange(start.len() as int, whole.len() as int));
}

/// A pair is appended exactly where its value is there and not blank, without the whitespace around
/// it; the flow goes over TCP alone.
pub proof fn pairs_hold_what_is_not_blank(
    pairs: Seq<(Seq<char>, Seq<char>)>,
    key: Seq<char>,
    value: Seq<char>,
    client: JsonModel,
    network: Seq<char>,
)
    ensures
        trim(value).len() > 0 ==> with_pair(pairs, key, Some(value)) == pairs.push(
            (key, trim(value)),
        ),
        trim(value).len() == 0 ==> with_pair(pairs, key, Some(value)) == pairs,
        with_pair(pairs, key, None) == pairs,
        network != "tcp"@ ==> with_flow(pairs, client, network) == pairs,
        with_flow(pairs, client, "tcp"@) == with_pair(pairs, "flow"@, str_field(client, "flow"@)),
{
}

/// A link over Reality carries, after how it is carried and secured, the key, the fingerprint, the
/// first server name, the first short identifier, the spider's path and the flow, as far as they are
/// there; one over TLS the fingerprint, the server name and the flow; and any other one nothing.
pub proof fn links_carry_what_their_security_needs(stream: JsonModel, client: JsonModel)
    ensures
        ({
            let network = str_or(stream, "network"@, "tcp"@);
            let start = seq![("type"@, network)];
            &&& str_field(stream, "security"@) == Some("reality"@) ==> (link_pairs(
                stream,
                client,
            ) is Some <==> (stream.field("realitySettings"@) matches Some(reality)
                && reality.field("settings"@) is Some))
            &&& str_field(stream, "security"@) == Some("reality"@) ==> (link_pairs(
                stream,
                client,
            ) matches Some(pairs) ==> {
                let reality = stream.field("realitySettings"@)->0;
                let settings = reality.field("settings"@)->0;
                pairs == with_flow(
                    with_pair(
                        with_pair(
                            with_pair(
                                with_pair(
                                    with_pair(
                                        start.push(("security"@, "reality"@)),
                                        "pbk"@,
                                        str_field(settings, "publicKey"@),
                                    ),
                                    "fp"@,
                                    str_field(settings, "fingerprint"@),
                                ),
                                "sni"@,
                                first_of(reality.field("serverNames"@)),
                            ),
                            "sid"@,
                            first_of(reality.field("shortIds"@)),
                        ),
                        "spx"@,
                        str_field(settings, "spiderX"@),
                    ),
                    client,
                    network,
                )
            })
            &&& str_field(stream, "security"@) == Some("tls"@) ==> (link_pairs(
                stream,
                client,
            ) matches Some(pairs) && (stream.field("tlsSettings"@) is None ==> pairs == with_flow(
                start.push(("security"@, "tls"@)),
                client,
                network,
            )) && (stream.field("tlsSettings"@) matches Some(tls) ==> pairs == with_flow(
                with_pair(
                    with_pair(
                        start.push(("security"@, "tls"@)),
                        "fp"@,
                        match tls.field("settings"@) {
                            Some(settings) => str_field(settings, "fingerprint"@),
                            None => None,
                        },
                    ),
                    "sni"@,
                    str_field(tls, "serverName"@),
                ),
                client,
                network,
            )))
            &&& str_field(stream, "security"@) != Some("reality"@) && str_field(stream, "security"@)
                != Some("tls"@) ==> link_pairs(stream, client) == Some(
                start.push(("security"@, "none"@)),
            )
        }),
{
    reveal_strlit("none");
    reveal_strlit("reality");
    reveal_strlit("tls");
    assert("none"@.len() == 4);
    assert("reality"@.len() == 7);
    assert("tls"@.len() == 3);
}

/// The first string of a list is its first item that is one, and the first of a text is its first
/// piece between commas that is not blank.
pub proof fn first_string_is_first(items: Seq<JsonModel>, i: int)
    requires
        0 <= i <= items.len(),
        i < items.len() ==> items[i] is Str,
        forall|j: int| 0 <= j < i ==> !((#[trigger] items[j]) is Str),
    ensures
        first_of(Some(JsonModel::Array(items))) == if i < items.len() {
            Some(items[i]->Str_0)
        } else {
            None
        },
        first_of(None) is None,
    decreases items.len(),
{
    if i > 0 {
        assert(!(items[0] is Str));
        let rest = items.drop_first();
        assert forall|j: int| 0 <= j < i - 1 implies !((#[trigger] rest[j]) is Str) by {
            assert(rest[j] == items[j + 1]);
        }
        first_string_is_first(rest, i - 1);
    }
}

/// The client of a link is the first with the UUID or the e-mail that are asked for.
pub proof fn first_named_client_is_taken(
    clients: Seq<JsonModel>,
    email: Seq<char>,
    client_uuid: Seq<char>,
    strict: bool,
    i: int,
)
    requires
        0 <= i <= clients.len(),
        i < clients.len() ==> is_client(clients[i], email, client_uuid, strict),
        forall|j: int|
            0 <= j < i ==> !is_client(#[trigger] clients[j], email, client_uuid, strict),
    ensures
        client_in(clients, email, client_uuid, strict) == if i < clients.len() {
            Some(clients[i])
        } else {
            None
        },
        forall|client: JsonModel|
            email.len() > 0 && str_field(client, "email"@) == Some(email) ==> #[trigger] is_client(
                client,
                email,
                client_uuid,
                strict,
            ),
        forall|client: JsonModel|
            client_uuid.len() > 0 && str_field(client, "id"@) == Some(client_uuid)
                ==> #[trigger] is_client(client, email, client_uuid, strict),
        forall|client: JsonModel|
            str_field(client, "email"@) != Some(email) && str_field(client, "id"@) != Some(
                client_uuid,
            ) ==> !#[trigger] is_client(client, email, client_uuid, strict),
    decreases clients.len(),
{
    if i > 0 {
        assert(!is_client(clients[0], email, client_uuid, strict));
        let rest = clients.drop_first();
        assert forall|j: int| 0 <= j < i - 1 implies !is_client(
            #[trigger] rest[j],
            email,
            client_uuid,
            strict,
        ) by {
            assert(rest[j] == clients[j + 1]);
        }
        first_named_client_is_taken(rest, email, client_uuid, strict, i - 1);
    }
}

/// Only a VLESS inbound with settings, streams and the client makes a link, and its parts are those
/// of that client.
pub proof fn only_vless_inbounds_make_links(
    inbound: JsonModel,
    base_url: Seq<char>,
    email: Seq<char>,
    client_uuid: Seq<char>,
    strict: bool,
)
    ensures
        str_field(inbound, "protocol"@) != Some("vless"@) ==> vless_parts(
            inbound,
            base_url,
            email,
            client_uuid,
            strict,
        ) is None,
        vless_parts(inbound, base_url, email, client_uuid, strict) matches Some(parts) ==> {
            &&& str_field(inbound, "protocol"@) == Some("vless"@)
            &&& embedded_field(inbound, "settings"@) matches Some(settings)
            &&& embedded_field(inbound, "streamSettings"@) matches Some(stream)
            &&& array_field(settings, "clients"@) matches Some(clients)
            &&& client_in(clients, email, client_uuid, strict) matches Some(client)
            &&& link_base(inbound, base_url, client) == Some(parts.base)
            &&& link_pairs(stream, client) == Some(parts.pairs)
            &&& parts.fragment == link_fragment(inbound, client, email)
        },
        vless_parts(inbound, base_url, email, client_uuid, strict) matches Some(parts)
            ==> (parts.fits() ==> vless_link(inbound, base_url, email, client_uuid, strict)
            == url_built(parts.base, parts.pairs, parts.fragment)),
{
}

/// A setting is a value, or the text of one; numbers, booleans and nulls are none.
pub proof fn settings_are_values_or_texts(
    s: Seq<char>,
    items: Seq<JsonModel>,
    entries: Seq<(Seq<char>, JsonModel)>,
    b: bool,
)
    ensures
        embedded(JsonModel::Str(s)) == json_parsed(s),
        embedded(JsonModel::Array(items)) == Some(JsonModel::Array(items)),
        embedded(JsonModel::Object(entries)) == Some(JsonModel::Object(entries)),
        embedded(JsonModel::Null) is None,
        embedded(JsonModel::Bool(b)) is None,
{
}

/// A reply is searched from the outside in: the object that it wraps, or the inbound that it is; in
/// a list, the first item with a link gives it.
pub proof fn replies_are_searched_from_the_outside_in(
    value: JsonModel,
    inner: JsonModel,
    items: Seq<JsonModel>,
    item: JsonModel,
    base_url: Seq<char>,
    inbound_id: i64,
    email: Seq<char>,
    client_uuid: Seq<char>,
    strict: bool,
)
    ensures
        value.field("obj"@) == Some(inner) ==> link_in(
            value,
            base_url,
            inbound_id,
            email,
            client_uuid,
            strict,
        ) == link_in(inner, base_url, inbound_id, email, client_uuid, strict),
        value is Object && value.field("obj"@) is None ==> link_in(
            value,
            base_url,
            inbound_id,
            email,
            client_uuid,
            strict,
        ) == if int_field(value, "id"@) == Some(inbound_id) || value.field("protocol"@) is Some {
            vless_link(value, base_url, email, client_uuid, strict)
        } else {
            None
        },
        link_in(
            JsonModel::Array(items.push(item)),
            base_url,
            inbound_id,
            email,
            client_uuid,
            strict,
        ) == match link_in(
            JsonModel::Array(items),
            base_url,
            inbound_id,
            email,
            client_uuid,
            strict,
        ) {
            Some(link) => Some(link),
            None => link_in(item, base_url, inbound_id, email, client_uuid, strict),
        },
{
    reveal_with_fuel(link_in, 2);
    reveal_with_fuel(link_in_items, 2);
    let more = items.push(item);
    assert(more[items.len() as int] == item);
    same_start_same_link(
        items,
        more,
        items.len(),
        base_url,
        inbound_id,
        email,
        client_uuid,
        strict,
    );
}

proof fn same_start_same_link(
    a: Seq<JsonModel>,
    b: Seq<JsonModel>,
    n: nat,
    base_url: Seq<char>,
    inbound_id: i64,
    email: Seq<char>,
    client_uuid: Seq<char>,
    strict: bool,
)
    requires
        n <= a.len(),
        n <= b.len(),
        forall|i: int| 0 <= i < n ==> a[i] == b[i],
    ensures
        link_in_items(a, n, base_url, inbound_id, email, client_uuid, strict) == link_in_items(
            b,
            n,
            base_url,
            inbound_id,
            email,
            client_uuid,
            strict,
        ),
    decreases n,
{
    if n > 0 {
        same_start_same_link(
            a,
            b,
            (n - 1) as nat,
            base_url,
            inbound_id,
            email,
            client_uuid,
            strict,
        );
    }
}

proof fn with_pair_extends(
    pairs: Seq<(Seq<char>, Seq<char>)>,
    key: Seq<char>,
    value: Option<Seq<char>>,
)
    ensures
        with_pair(pairs, key, value).len() >= pairs.len(),
        forall|i: int| 0 <= i < pairs.len() ==> #[trigger] with_pair(pairs, key, value)[i] == pairs[i],
{
}

/// A link always says first how it is carried and then how it is secured.
pub proof fn link_starts_with_its_transport(stream: JsonModel, client: JsonModel)
    ensures
        link_pairs(stream, client) matches Some(pairs) ==> {
            &&& pairs.len() >= 2
            &&& pairs[0] == ("type"@, str_or(stream, "network"@, "tcp"@))
            &&& pairs[1].0 == "security"@
            &&& (pairs[1].1 == "reality"@ || pairs[1].1 == "tls"@ || pairs[1].1 == "none"@)
        },
{
    let network = str_or(stream, "network"@, "tcp"@);
    let base = seq![("type"@, network)];
    if let Some(reality) = stream.field("realitySettings"@) {
        if let Some(settings) = reality.field("settings"@) {
            let p = base.push(("security"@, "reality"@));
            with_pair_extends(p, "pbk"@, str_field(settings, "publicKey"@));
            let p = with_pair(p, "pbk"@, str_field(settings, "publicKey"@));
            with_pair_extends(p, "fp"@, str_field(settings, "fingerprint"@));
            let p = with_pair(p, "fp"@, str_field(settings, "fingerprint"@));
            with_pair_extends(p, "sni"@, first_of(reality.field("serverNames"@)));
            let p = with_pair(p, "sni"@, first_of(reality.field("serverNames"@)));
            with_pair_extends(p, "sid"@, first_of(reality.field("shortIds"@)));
            let p = with_pair(p, "sid"@, first_of(reality.field("shortIds"@)));
            with_pair_extends(p, "spx"@, str_field(settings, "spiderX"@));
            let p = with_pair(p, "spx"@, str_field(settings, "spiderX"@));
            with_pair_extends(p, "flow"@, str_field(client, "flow"@));
        }
    }
}

/// Where an empty identity names nobody, no client is found without one.
pub proof fn nobody_is_found_without_identity(clients: Seq<JsonModel>)
    ensures
        client_in(clients, seq![], seq![], true) is None,
    decreases clients.len(),
{
    if clients.len() > 0 {
        nobody_is_found_without_identity(clients.drop_first());
    }
}

/// The setting that a field holds: as a value, or as the text of one.
pub fn parse_json_field(value: &Json) -> (r: Option<Json>)
    ensures
        r is Some <==> embedded(value@) is Some,
        r matches Some(v) ==> embedded(value@) == Some(v@),
{
    match value {
        Json::Str(s) => parse_json(s),
        Json::Object(_) => Some(value.copy()),
        Json::Array(_) => Some(value.copy()),
        _ => None,
    }
}

fn setting(value: &Json, key: &str) -> (r: Option<Json>)
    ensures
        r is Some <==> embedded_field(value@, key@) is Some,
        r matches Some(v) ==> embedded_field(value@, key@) == Some(v@),
{
    match value.field(key) {
        Some(v) => parse_json_field(v),
        None => None,
    }
}

fn first_text(items: &Vec<Json>) -> (r: Option<String>)
    ensures
        r.deep_view() == first_str(models(items@)),
{
    let ghost all = models(items@);
    assert(all.skip(0) =~= all);
    let mut i: usize = 0;
    while i < items.len()
        invariant
            i <= items@.len(),
            all == models(items@),
            first_str(all) == first_str(all.skip(i as int)),
        decreases items@.len() - i,
    {
        assert(all.skip(i as int)[0] == items@[i as int]@);
        match items[i].as_str() {
            Some(s) => {
                return Some(s.clone());
            },
            None => {},
        }
        assert(all.skip(i as int).drop_first() =~= all.skip(i + 1));
        i = i + 1;
    }
    None
}

fn first_piece(s: &str) -> (r: Option<String>)
    ensures
        r.deep_view() == first_of(Some(JsonModel::Str(s@))),
{
    let pieces = split_at_char(s, ',');
    let ghost all = split(s@, ',').map_values(|p: Seq<char>| trim(p));
    let ghost given = |p: Seq<char>| p.len() > 0;
    assert(all.skip(0) =~= all);
    let mut i: usize = 0;
    while i < pieces.len()
        invariant
            i <= pieces@.len(),
            pieces.deep_view() == split(s@, ','),
            all == split(s@, ',').map_values(|p: Seq<char>| trim(p)),
            given == |p: Seq<char>| p.len() > 0,
            first_where(all, given) == first_where(all.skip(i as int), given),
        decreases pieces@.len() - i,
    {
        assert(pieces.deep_view()[i as int] == pieces@[i as int]@);
        assert(all.skip(i as int)[0] == trim(pieces@[i as int]@));
        let piece = trim_text(&pieces[i]);
        if !piece.as_str().is_empty() {
            return Some(piece);
        }
        assert(all.skip(i as int).drop_first() =~= all.skip(i + 1));
        i = i + 1;
    }
    None
}

/// The first string of an array, or the first piece between commas that is not blank.
pub fn first_string(value: Option<&Json>) -> (r: Option<String>)
    ensures
        r.deep_view() == first_of(model_of(value)),
{
    match value {
        Some(Json::Array(items)) => {
            proof {
                Json::array_view(*items);
            }
            first_text(items)
        },
        Some(Json::Str(s)) => first_piece(s),
        _ => None,
    }
}

/// The address that an inbound listens on, or the host of the panel.
pub fn inbound_address(inbound: &Json, base_url: &str) -> (r: Option<String>)
    ensures
        r.deep_view() == address_of(inbound@, base_url@),
{
    let listen = match inbound.str_field("listen") {
        Some(s) => trim_text(&s),
        None => trim_text(""),
    };
    if !listen.as_str().is_empty() && !text_eq(&listen, "0.0.0.0") {
        Some(listen)
    } else {
        url_host_text(base_url)
    }
}

/// Appends a pair where the value is there and not blank.
pub fn append_if_non_empty(pairs: &mut Vec<(String, String)>, key: &str, value: Option<String>)
    ensures
        final(pairs).deep_view() == with_pair(old(pairs).deep_view(), key@, value.deep_view()),
{
    let ghost before = pairs.deep_view();
    if let Some(v) = value {
        let v = trim_text(&v);
        if !v.as_str().is_empty() {
            let ghost pair = (key@, v@);
            pairs.push((key.to_string(), v));
            assert(pairs.deep_view() =~= before.push(pair));
        }
    }
}

fn append_pair(pairs: &mut Vec<(String, String)>, key: &str, value: &str)
    ensures
        final(pairs).deep_view() == old(pairs).deep_view().push((key@, value@)),
{
    let ghost before = pairs.deep_view();
    pairs.push((key.to_string(), value.to_string()));
    assert(pairs.deep_view() =~= before.push((key@, value@)));
}

fn append_flow(pairs: &mut Vec<(String, String)>, client: &Json, network: &str)
    ensures
        final(pairs).deep_view() == with_flow(old(pairs).deep_view(), client@, network@),
{
    if text_eq(network, "tcp") {
        append_if_non_empty(pairs, "flow", client.str_field("flow"));
    }
}

fn text_or(value: &Json, key: &str, default: &str) -> (r: String)
    ensures
        r@ == str_or(value@, key@, default@),
{
    match value.str_field(key) {
        Some(s) => s,
        None => default.to_string(),
    }
}

/// The query pairs of a link to the client.
pub fn query_pairs(stream: &Json, client: &Json) -> (r: Option<Vec<(String, String)>>)
    ensures
        r.deep_view() == link_pairs(stream@, client@),
{
    let security = text_or(stream, "security", "none");
    let network = text_or(stream, "network", "tcp");
    let mut pairs: Vec<(String, String)> = Vec::new();
    append_pair(&mut pairs, "type", &network);
    assert(pairs.deep_view() =~= seq![("type"@, network@)]);
    if text_eq(&security, "reality") {
        append_pair(&mut pairs, "security", "reality");
        let reality = match stream.field("realitySettings") {
            Some(v) => v,
            None => {
                return None;
            },
        };
        let settings = match reality.field("settings") {
            Some(v) => v,
            None => {
                return None;
            },
        };
        append_if_non_empty(&mut pairs, "pbk", settings.str_field("publicKey"));
        append_if_non_empty(&mut pairs, "fp", settings.str_field("fingerprint"));
        append_if_non_empty(&mut pairs, "sni", first_string(reality.field("serverNames")));
        append_if_non_empty(&mut pairs, "sid", first_string(reality.field("shortIds")));
        append_if_non_empty(&mut pairs, "spx", settings.str_field("spiderX"));
        append_flow(&mut pairs, client, &network);
    } else if text_eq(&security, "tls") {
        append_pair(&mut pairs, "security", "tls");
        if let Some(tls) = stream.field("tlsSettings") {
            let fingerprint = match tls.field("settings") {
                Some(settings) => settings.str_field("fingerprint"),
                None => None,
            };
            append_if_non_empty(&mut pairs, "fp", fingerprint);
            append_if_non_empty(&mut pairs, "sni", tls.str_field("serverName"));
        }
        append_flow(&mut pairs, client, &network);
    } else {
        append_pair(&mut pairs, "security", "none");
    }
    Some(pairs)
}

fn find_client<'a>(clients: &'a Vec<Json>, email: &str, client_uuid: &str, strict: bool) -> (r:
    Option<&'a Json>)
    ensures
        model_of(r) == client_in(models(clients@), email@, client_uuid@, strict),
{
    let ghost all = models(clients@);
    assert(all.skip(0) =~= all);
    let mut i: usize = 0;
    while i < clients.len()
        invariant
            i <= clients@.len(),
            all == models(clients@),
            client_in(all, email@, client_uuid@, strict) == client_in(
                all.skip(i as int),
                email@,
                client_uuid@,
                strict,
            ),
        decreases clients@.len() - i,
    {
        assert(all.skip(i as int)[0] == clients@[i as int]@);
        let by_id = (!strict || !client_uuid.is_empty()) && match clients[i].str_field("id") {
            Some(id) => text_eq(&id, client_uuid),
            None => false,
        };
        let by_email = (!strict || !email.is_empty()) && match clients[i].str_field("email") {
            Some(given) => text_eq(&given, email),
            None => false,
        };
        if by_id || by_email {
            return Some(&clients[i]);
        }
        assert(all.skip(i as int).drop_first() =~= all.skip(i + 1));
        i = i + 1;
    }
    None
}

/// The parts of a link to the client of a VLESS inbound.
pub fn vless_link_parts(
    inbound: &Json,
    base_url: &str,
    email: &str,
    client_uuid: &str,
    strict: bool,
) -> (r: Option<LinkParts>)
    ensures
        link_model(r) == vless_parts(inbound@, base_url@, email@, client_uuid@, strict),
{
    let protocol = inbound.str_field("protocol")?;
    if !text_eq(&protocol, "vless") {
        return None;
    }
    let settings = setting(inbound, "settings")?;
    let stream = setting(inbound, "streamSettings")?;
    let clients = settings.array_field("clients")?;
    let client = find_client(clients, email, client_uuid, strict)?;
    let address = inbound_address(inbound, base_url)?;
    let port: i64 = inbound.int_field("port")?;
    let uuid = client.str_field("id")?;
    let pairs = query_pairs(&stream, client)?;
    let mut base = "vless://".to_string();
    base.append(&uuid);
    base.append("@");
    base.append(&address);
    base.append(":");
    append_i64(&mut base, port);
    let mut fragment = text_or(inbound, "remark", "vpn");
    fragment.append("-");
    fragment.append(&text_or(client, "email", email));
    Some(LinkParts { base, pairs, fragment })
}

proof fn pairs_len_grows(pairs: Seq<(Seq<char>, Seq<char>)>, i: int)
    requires
        0 <= i <= pairs.len(),
    ensures
        pairs_len(pairs.take(i)) <= pairs_len(pairs),
    decreases pairs.len() - i,
{
    if i < pairs.len() {
        pairs_len_grows(pairs, i + 1);
        assert(pairs.take(i + 1).drop_last() =~= pairs.take(i));
    } else {
        assert(pairs.take(i) =~= pairs);
    }
}

fn query_len(s: &str) -> (r: u128)
    ensures
        r == form_len(encode_utf8(s@)),
        r <= 3 * usize::MAX,
{
    let bytes = s.as_bytes();
    let count: usize = bytes.len();
    let ghost all = bytes@;
    let mut total: u128 = 0;
    let mut i: usize = 0;
    while i < count
        invariant
            i <= count,
            all == bytes@,
            count == all.len(),
            total == form_len(all.take(i as int)),
            total <= 3 * i,
        decreases count - i,
    {
        assert(all.take(i + 1).drop_last() =~= all.take(i as int));
        let b: u8 = bytes[i];
        let plain = b == 32 || b == 42 || b == 45 || b == 46 || (48 <= b && b <= 57) || (65 <= b && b
            <= 90) || b == 95 || (97 <= b && b <= 122);
        assert(form_byte_len(b) == if plain {
            1nat
        } else {
            3nat
        });
        if plain {
            total = total + 1;
        } else {
            total = total + 3;
        }
        i = i + 1;
    }
    assert(all.take(i as int) =~= all);
    total
}

fn pairs_end_within(start: u128, pairs: &Vec<(String, String)>, limit: u128) -> (r: bool)
    requires
        start <= usize::MAX,
        limit <= usize::MAX + 1,
    ensures
        r == (start + pairs_len(pairs.deep_view()) <= limit),
{
    let ghost all = pairs.deep_view();
    let mut total: u128 = start;
    let mut i: usize = 0;
    assert(all.take(0) =~= seq![]);
    while i < pairs.len()
        invariant
            i <= pairs@.len(),
            all == pairs.deep_view(),
            all.len() == pairs@.len(),
            total == start + pairs_len(all.take(i as int)),
            total <= usize::MAX + 1,
            limit <= usize::MAX + 1,
        decreases pairs@.len() - i,
    {
        assert(all[i as int] == (pairs@[i as int].0@, pairs@[i as int].1@));
        assert(all.take(i + 1).drop_last() =~= all.take(i as int));
        proof {
            pairs_len_grows(all, i + 1);
        }
        total = total + query_len(&pairs[i].0) + query_len(&pairs[i].1) + 2;
        if total > limit {
            return false;
        }
        i = i + 1;
    }
    assert(all.take(i as int) =~= all);
    total <= limit
}

impl LinkParts {
    /// Whether the positions in the link fit into the 32 bits that a URL keeps for each.
    pub fn can_be_built(&self) -> (r: bool)
        ensures
            r == self@.fits(),
    {
        if self.pairs.len() == 0 {
            return false;
        }
        let url = match url_normal_text(&self.base) {
            Some(url) => url,
            None => {
                return true;
            },
        };
        let head = match split_once_at(&url, '#') {
            Some((head, _)) => head,
            None => {
                proof {
                    find_char_is_first(url@, '#');
                }
                assert(without_fragment(url@) =~= url@);
                url
            },
        };
        let empty_query = match split_once_at(&head, '?') {
            Some((_, query)) => query.as_str().is_empty(),
            None => false,
        };
        let limit: u128 = if empty_query {
            0x1_0000_0000
        } else {
            0xffff_ffff
        };
        pairs_end_within(head.as_str().as_bytes().len() as u128, &self.pairs, limit)
    }

    /// The link that the parts make, if they make one.
    pub fn build(&self) -> (r: Option<String>)
        requires
            self@.fits(),
        ensures
            r.deep_view() == url_built(self@.base, self@.pairs, self@.fragment),
    {
        url_build(&self.base, &self.pairs, &self.fragment)
    }
}

/// The link to the client of a VLESS inbound. There is none where its parts do not fit.
pub fn generate_vless_link_from_inbound(
    inbound: &Json,
    base_url: &str,
    email: &str,
    client_uuid: &str,
    strict: bool,
) -> (r: Option<String>)
    ensures
        r.deep_view() == vless_link(inbound@, base_url@, email@, client_uuid@, strict),
{
    match vless_link_parts(inbound, base_url, email, client_uuid, strict) {
        Some(parts) => if parts.can_be_built() {
            parts.build()
        } else {
            None
        },
        None => None,
    }
}

/// The link to the client in a panel's object.
pub fn generate_connection_url_from_server_obj(
    obj: &Json,
    base_url: &str,
    inbound_id: i64,
    email: &str,
    client_uuid: &str,
    strict: bool,
) -> (r: Option<String>)
    ensures
        r.deep_view() == link_in(obj@, base_url@, inbound_id, email@, client_uuid@, strict),
    decreases obj@,
{
    match obj {
        Json::Array(items) => {
            proof {
                Json::array_view(*items);
            }
            let ghost all = models(items@);
            let mut i: usize = 0;
            while i < items.len()
                invariant
                    i <= items@.len(),
                    all == models(items@),
                    obj@ == JsonModel::Array(all),
                    link_in_items(
                        all,
                        i as nat,
                        base_url@,
                        inbound_id,
                        email@,
                        client_uuid@,
                        strict,
                    ) is None,
                decreases items@.len() - i,
            {
                proof {
                    item_is_smaller(all, i as int);
                }
                assert(items@[i as int]@ == all[i as int]);
                let link = generate_connection_url_from_server_obj(
                    &items[i],
                    base_url,
                    inbound_id,
                    email,
                    client_uuid,
                    strict,
                );
                if link.is_some() {
                    proof {
                        first_link_stays(
                            all,
                            (i + 1) as nat,
                            base_url@,
                            inbound_id,
                            email@,
                            client_uuid@,
                            strict,
                        );
                    }
                    return link;
                }
                i = i + 1;
            }
            None
        },
        Json::Object(_) => {
            let ghost entries = obj@->Object_0;
            match obj.field("obj") {
                Some(inner) => {
                    proof {
                        entry_is_smaller(entries, key_index(entries, "obj"@) as int);
                    }
                    generate_connection_url_from_server_obj(
                        inner,
                        base_url,
                        inbound_id,
                        email,
                        client_uuid,
                        strict,
                    )
                },
                None => {
                    let wanted = match obj.int_field("id") {
                        Some(id) => id == inbound_id,
                        None => false,
                    };
                    if wanted || obj.field("protocol").is_some() {
                        generate_vless_link_from_inbound(obj, base_url, email, client_uuid, strict)
                    } else {
                        None
                    }
                },
            }
        },
        _ => None,
    }
}

proof fn first_link_stays(
    items: Seq<JsonModel>,
    n: nat,
    base_url: Seq<char>,
    inbound_id: i64,
    email: Seq<char>,
    client_uuid: Seq<char>,
    strict: bool,
)
    requires
        n <= items.len(),
        link_in_items(items, n, base_url, inbound_id, email, client_uuid, strict) is Some,
    ensures
        link_in_items(items, items.len(), base_url, inbound_id, email, client_uuid, strict)
            == link_in_items(items, n, base_url, inbound_id, email, client_uuid, strict),
    decreases items.len() - n,
{
    if n < items.len() {
        first_link_stays(items, n + 1, base_url, inbound_id, email, client_uuid, strict);
    }
}

} // verus!
