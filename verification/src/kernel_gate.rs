//! Having the core check a generated configuration: nodes that it rejects are left out one after
//! the other, and what it accepted is remembered.

use vstd::prelude::*;

use crate::json::{
    compact_bytes, compact_value, field_views, first_key_at, json_views, key_index,
    lemma_array_view, lemma_get, lemma_object_view, lemma_put_at, lemma_put_other, lemma_put_same,
    lemma_rebuilt_canonical, lemma_with_field_canonical, lemma_with_field_twice, rebuilt, value_of,
    with_field, Json, JsonView,
};
use crate::text::{begins, begins_with, same_text};

verus! {

/// The version of the record of an accepted configuration.
pub const KERNEL_GATE_CACHE_SCHEMA: u32 = 1;

/// Which entries of a configuration have a port that is drawn anew for every start.
#[derive(Clone, Copy, PartialEq, Eq, Structural, Debug)]
pub enum DynamicPort {
    /// An inbound of the updater or of a probe.
    Inbound,
    /// The management service.
    Service,
    /// The name server that races the nodes' own.
    NameServer,
}

/// The name of the port's field.
pub open spec fn port_key(kind: DynamicPort) -> Seq<char> {
    match kind {
        DynamicPort::NameServer => "server_port"@,
        _ => "listen_port"@,
    }
}

/// The entry has such a port.
pub open spec fn has_dynamic_port(kind: DynamicPort, item: JsonView) -> bool {
    match kind {
        DynamicPort::Inbound => match item.text_at("tag"@) {
            Some(t) => t == "update-in"@ || t == "subscription-update-in"@ || begins_with(
                t,
                "probe-in-"@,
            ),
            None => false,
        },
        DynamicPort::Service => item.text_at("type"@) == Some("api"@),
        DynamicPort::NameServer => item.text_at("tag"@) == Some("dns-node-race"@),
    }
}

/// The entry, with 0 for a port that is drawn anew for every start.
pub open spec fn steady_item(kind: DynamicPort, item: JsonView) -> JsonView {
    if has_dynamic_port(kind, item) {
        with_field(item, port_key(kind), JsonView::Uint(0))
    } else {
        item
    }
}

/// The entries of an array, each with its drawn ports at 0.
pub open spec fn steady_items(kind: DynamicPort, v: JsonView) -> JsonView {
    match v {
        JsonView::Array(items) => JsonView::Array(
            items.map_values(|x: JsonView| steady_item(kind, x)),
        ),
        _ => v,
    }
}

/// The entries of the array `key`, each with its drawn ports at 0.
pub open spec fn steady_at(kind: DynamicPort, v: JsonView, key: Seq<char>) -> JsonView {
    match v.get(key) {
        Some(x) => with_field(v, key, steady_items(kind, x)),
        None => v,
    }
}

/// The name servers, each with its drawn ports at 0.
pub open spec fn steady_name_servers(v: JsonView) -> JsonView {
    match v.get("dns"@) {
        Some(d) => with_field(v, "dns"@, steady_at(DynamicPort::NameServer, d, "servers"@)),
        None => v,
    }
}

/// A configuration without what changes from start to start: the ports that are drawn anew.
pub open spec fn steady_config(v: JsonView) -> JsonView {
    steady_name_servers(
        steady_at(
            DynamicPort::Service,
            steady_at(DynamicPort::Inbound, v, "inbounds"@),
            "services"@,
        ),
    )
}

fn steady_one(kind: DynamicPort, item: Json) -> (r: Json)
    ensures
        r@ == steady_item(kind, item@),
{
    let dynamic = match kind {
        DynamicPort::Inbound => match item.text_at("tag") {
            Some(t) => same_text(t.as_str(), "update-in") || same_text(
                t.as_str(),
                "subscription-update-in",
            ) || begins(t.as_str(), "probe-in-"),
            None => false,
        },
        DynamicPort::Service => match item.text_at("type") {
            Some(t) => same_text(t.as_str(), "api"),
            None => false,
        },
        DynamicPort::NameServer => match item.text_at("tag") {
            Some(t) => same_text(t.as_str(), "dns-node-race"),
            None => false,
        },
    };
    if !dynamic {
        return item;
    }
    let key = match kind {
        DynamicPort::NameServer => "server_port",
        _ => "listen_port",
    };
    item.with_field(key, Json::Uint(0))
}

fn steady_all(kind: DynamicPort, value: Json) -> (r: Json)
    ensures
        r@ == steady_items(kind, value@),
{
    match value {
        Json::Array(items) => {
            let mut items = items;
            let ghost before = json_views(items@);
            proof {
                lemma_array_view(items);
            }
            let mut i: usize = 0;
            while i < items.len()
                invariant
                    i <= items@.len(),
                    items@.len() == before.len(),
                    forall|k: int|
                        0 <= k < i ==> (#[trigger] items@[k])@ == steady_item(kind, before[k]),
                    forall|k: int| i <= k < items@.len() ==> (#[trigger] items@[k])@ == before[k],
                decreases items@.len() - i,
            {
                let mut item = Json::Null;
                std::mem::swap(&mut items[i], &mut item);
                items.set(i, steady_one(kind, item));
                i += 1;
            }
            proof {
                lemma_array_view(items);
                assert(json_views(items@) =~= before.map_values(
                    |x: JsonView| steady_item(kind, x),
                ));
            }
            Json::Array(items)
        },
        other => other,
    }
}

fn steady_field(kind: DynamicPort, value: Json, key: &str) -> (r: Json)
    ensures
        r@ == steady_at(kind, value@, key@),
{
    match value {
        Json::Object(fields) => {
            let mut fields = fields;
            let ghost before = field_views(fields@);
            proof {
                lemma_object_view(fields);
            }
            if let Some(i) = key_index(&fields, key) {
                let (name, x) = fields.remove(i);
                proof {
                    lemma_get(before, key@, i as int);
                    lemma_put_at(before, key@, steady_items(kind, x@), i as int);
                }
                let y = steady_all(kind, x);
                fields.insert(i, (name, y));
                assert(field_views(fields@) =~= before.update(i as int, (key@, y@)));
                proof {
                    lemma_object_view(fields);
                }
            }
            Json::Object(fields)
        },
        other => other,
    }
}

/// Takes out of a configuration what changes from start to start, so that what is left tells
/// whether the core has accepted it before.
pub fn normalize_kernel_gate_config(value: &mut Json)
    ensures
        final(value)@ == steady_config(old(value)@),
{
    let mut v = Json::Null;
    std::mem::swap(value, &mut v);
    let v = steady_field(DynamicPort::Inbound, v, "inbounds");
    let v = steady_field(DynamicPort::Service, v, "services");
    *value = match v {
        Json::Object(fields) => {
            let mut fields = fields;
            let ghost before = field_views(fields@);
            proof {
                lemma_object_view(fields);
            }
            if let Some(i) = key_index(&fields, "dns") {
                let (name, d) = fields.remove(i);
                proof {
                    lemma_get(before, "dns"@, i as int);
                    lemma_put_at(
                        before,
                        "dns"@,
                        steady_at(DynamicPort::NameServer, d@, "servers"@),
                        i as int,
                    );
                }
                let e = steady_field(DynamicPort::NameServer, d, "servers");
                fields.insert(i, (name, e));
                assert(field_views(fields@) =~= before.update(i as int, ("dns"@, e@)));
                proof {
                    lemma_object_view(fields);
                }
            }
            Json::Object(fields)
        },
        other => other,
    };
}

/// What a configuration is recognised by: its steady form in bytes, as `serde_json` builds and
/// writes it.
pub fn kernel_gate_bytes(config: Json) -> (r: Vec<u8>)
    ensures
        r@ == compact_bytes(rebuilt(steady_config(config@))),
{
    let mut tree = config;
    normalize_kernel_gate_config(&mut tree);
    compact_value(&value_of(&tree))
}

proof fn lemma_names_differ()
    ensures
        "tag"@ != "listen_port"@,
        "tag"@ != "server_port"@,
        "type"@ != "listen_port"@,
        "inbounds"@ != "services"@,
        "inbounds"@ != "dns"@,
        "services"@ != "dns"@,
{
    reveal_strlit("tag");
    reveal_strlit("type");
    reveal_strlit("listen_port");
    reveal_strlit("server_port");
    reveal_strlit("inbounds");
    reveal_strlit("services");
    reveal_strlit("dns");
    assert("tag"@.len() == 3 && "type"@.len() == 4 && "dns"@.len() == 3);
    assert("listen_port"@.len() == 11 && "server_port"@.len() == 11);
    assert("inbounds"@.len() == 8 && "services"@.len() == 8);
    assert("services"@[0] != "inbounds"@[0]);
}

/// A field of a canonical object is canonical.
proof fn lemma_field_canonical(v: JsonView, key: Seq<char>, depth: nat)
    requires
        v.canonical(depth),
        v.get(key) is Some,
    ensures
        v is Object,
        (v.get(key)->0).canonical((depth - 1) as nat),
{
    if let JsonView::Object(fields) = v {
        let i = choose|i: int| first_key_at(fields, key, i);
        lemma_get(fields, key, i);
        assert(fields[i].1.canonical((depth - 1) as nat));
    }
}

proof fn lemma_steady_at_canonical(kind: DynamicPort, v: JsonView, key: Seq<char>, depth: nat)
    requires
        v.canonical(depth),
    ensures
        steady_at(kind, v, key).canonical(depth),
{
    if let Some(x) = v.get(key) {
        lemma_field_canonical(v, key, depth);
        let d = (depth - 1) as nat;
        let y = steady_items(kind, x);
        if let JsonView::Array(items) = x {
            let e = (d - 1) as nat;
            let steady = items.map_values(|z: JsonView| steady_item(kind, z));
            assert forall|i: int| 0 <= i < steady.len() implies (#[trigger] steady[i]).canonical(
                e,
            ) by {
                assert(items[i].canonical(e));
                lemma_with_field_canonical(items[i], port_key(kind), JsonView::Uint(0), e);
            }
            assert(y == JsonView::Array(steady));
        }
        assert(y.canonical(d));
        lemma_with_field_canonical(v, key, y, depth);
    }
}

/// A configuration whose numbers are whole and whose keys are in order keeps both, wherever a port
/// is set in it; so what it is recognised by are the bytes of its steady form itself.
pub proof fn law_a_canonical_configuration_is_recognised_by_its_steady_form(
    config: JsonView,
    depth: nat,
)
    requires
        config.canonical(depth),
    ensures
        steady_config(config).canonical(depth),
        rebuilt(steady_config(config)) == steady_config(config),
{
    let a = steady_at(DynamicPort::Inbound, config, "inbounds"@);
    let b = steady_at(DynamicPort::Service, a, "services"@);
    lemma_steady_at_canonical(DynamicPort::Inbound, config, "inbounds"@, depth);
    lemma_steady_at_canonical(DynamicPort::Service, a, "services"@, depth);
    if let Some(d) = b.get("dns"@) {
        lemma_field_canonical(b, "dns"@, depth);
        lemma_steady_at_canonical(DynamicPort::NameServer, d, "servers"@, (depth - 1) as nat);
        lemma_with_field_canonical(
            b,
            "dns"@,
            steady_at(DynamicPort::NameServer, d, "servers"@),
            depth,
        );
    }
    lemma_rebuilt_canonical(steady_config(config), depth);
}

/// Which port an entry drew makes no difference to what is left of it.
pub proof fn law_a_drawn_port_does_not_matter(kind: DynamicPort, item: JsonView, port: u64)
    requires
        has_dynamic_port(kind, item),
    ensures
        steady_item(kind, with_field(item, port_key(kind), JsonView::Uint(port))) == steady_item(
            kind,
            item,
        ),
{
    lemma_names_differ();
    lemma_put_other(item, port_key(kind), JsonView::Uint(port), "tag"@);
    if kind == DynamicPort::Service {
        lemma_put_other(item, port_key(kind), JsonView::Uint(port), "type"@);
    }
    lemma_with_field_twice(item, port_key(kind), JsonView::Uint(port), JsonView::Uint(0));
}

proof fn lemma_steady_item_twice(kind: DynamicPort, item: JsonView)
    ensures
        steady_item(kind, steady_item(kind, item)) == steady_item(kind, item),
{
    if has_dynamic_port(kind, item) {
        law_a_drawn_port_does_not_matter(kind, item, 0);
    }
}

proof fn lemma_steady_items_twice(kind: DynamicPort, v: JsonView)
    ensures
        steady_items(kind, steady_items(kind, v)) == steady_items(kind, v),
{
    if let JsonView::Array(items) = v {
        let f = |x: JsonView| steady_item(kind, x);
        assert forall|i: int| 0 <= i < items.len() implies items.map_values(f).map_values(f)[i]
            == items.map_values(f)[i] by {
            lemma_steady_item_twice(kind, items[i]);
        }
        assert(items.map_values(f).map_values(f) =~= items.map_values(f));
    }
}

/// An entry whose array is steady already is left as it is.
proof fn lemma_steady_at_fixed(kind: DynamicPort, v: JsonView, key: Seq<char>)
    requires
        v.get(key) matches Some(x) ==> steady_items(kind, x) == x,
    ensures
        steady_at(kind, v, key) == v,
{
    if v.get(key) is Some {
        lemma_put_same(v, key, v.get(key)->0);
    }
}

proof fn lemma_steady_at_effect(kind: DynamicPort, v: JsonView, key: Seq<char>)
    ensures
        v.get(key) is None ==> steady_at(kind, v, key) == v,
        v.get(key) matches Some(x) ==> steady_at(kind, v, key).get(key) == Some(
            steady_items(kind, x),
        ),
{
    if v.get(key) is Some {
        lemma_with_field_twice(v, key, steady_items(kind, v.get(key)->0), JsonView::Null);
    }
}

/// Taking out twice what changes from start to start is taking it out once.
pub proof fn law_normalizing_is_idempotent(v: JsonView)
    ensures
        steady_config(steady_config(v)) == steady_config(v),
{
    lemma_names_differ();
    let a = steady_at(DynamicPort::Inbound, v, "inbounds"@);
    let b = steady_at(DynamicPort::Service, a, "services"@);
    let c = steady_config(v);
    lemma_steady_at_effect(DynamicPort::Inbound, v, "inbounds"@);
    lemma_steady_at_effect(DynamicPort::Service, a, "services"@);
    if a.get("services"@) is Some {
        lemma_put_other(
            a,
            "services"@,
            steady_items(DynamicPort::Service, a.get("services"@)->0),
            "inbounds"@,
        );
    }
    if b.get("dns"@) is Some {
        let d = b.get("dns"@)->0;
        let e = steady_at(DynamicPort::NameServer, d, "servers"@);
        lemma_put_other(b, "dns"@, e, "inbounds"@);
        lemma_put_other(b, "dns"@, e, "services"@);
        lemma_with_field_twice(b, "dns"@, e, e);
        lemma_steady_at_effect(DynamicPort::NameServer, d, "servers"@);
        if d.get("servers"@) is Some {
            lemma_steady_items_twice(DynamicPort::NameServer, d.get("servers"@)->0);
        }
        lemma_steady_at_fixed(DynamicPort::NameServer, e, "servers"@);
        lemma_put_same(c, "dns"@, e);
    }
    if v.get("inbounds"@) is Some {
        lemma_steady_items_twice(DynamicPort::Inbound, v.get("inbounds"@)->0);
    }
    if a.get("services"@) is Some {
        lemma_steady_items_twice(DynamicPort::Service, a.get("services"@)->0);
    }
    assert(c.get("inbounds"@) == a.get("inbounds"@));
    assert(c.get("services"@) == b.get("services"@));
    lemma_steady_at_fixed(DynamicPort::Inbound, c, "inbounds"@);
    lemma_steady_at_fixed(DynamicPort::Service, c, "services"@);
}

/// Two configurations that differ only in the ports that their inbounds drew are the same to the
/// memory of what the core accepted.
pub proof fn law_drawn_inbound_ports_do_not_matter(v: JsonView, a: JsonView, b: JsonView)
    requires
        steady_items(DynamicPort::Inbound, a) == steady_items(DynamicPort::Inbound, b),
    ensures
        steady_config(with_field(v, "inbounds"@, a)) == steady_config(
            with_field(v, "inbounds"@, b),
        ),
{
    let x = steady_items(DynamicPort::Inbound, a);
    if v is Object {
        lemma_with_field_twice(v, "inbounds"@, a, x);
        lemma_with_field_twice(v, "inbounds"@, b, x);
    }
}

/// Nothing of a configuration changes but the ports that are drawn anew: every field but three is
/// as it was, and of those the entries stay what and where they are, but for their port where they
/// have one that is drawn.
pub proof fn law_only_drawn_ports_are_taken_out(value: &mut Json, key: Seq<char>)
    requires
        call_ensures(normalize_kernel_gate_config, (value,), ()),
    ensures
        key != "inbounds"@ && key != "services"@ && key != "dns"@ ==> final(value)@.get(key)
            == old(value)@.get(key),
        final(value)@.get("inbounds"@) is Some <==> old(value)@.get("inbounds"@) is Some,
        final(value)@.get("services"@) is Some <==> old(value)@.get("services"@) is Some,
        final(value)@.get("dns"@) is Some <==> old(value)@.get("dns"@) is Some,
        old(value)@ !is Object ==> final(value)@ == old(value)@,
{
    lemma_steady_fields(old(value)@, key);
    lemma_steady_fields(old(value)@, "inbounds"@);
    lemma_steady_fields(old(value)@, "services"@);
    lemma_steady_fields(old(value)@, "dns"@);
}

/// What the steady form has under each key.
proof fn lemma_steady_fields(v: JsonView, key: Seq<char>)
    ensures
        key != "inbounds"@ && key != "services"@ && key != "dns"@ ==> steady_config(v).get(key)
            == v.get(key),
        steady_config(v).get("inbounds"@) == (match v.get("inbounds"@) {
            Some(x) => Some(steady_items(DynamicPort::Inbound, x)),
            None => None,
        }),
        steady_config(v).get("services"@) == (match v.get("services"@) {
            Some(x) => Some(steady_items(DynamicPort::Service, x)),
            None => None,
        }),
        steady_config(v).get("dns"@) == (match v.get("dns"@) {
            Some(d) => Some(steady_at(DynamicPort::NameServer, d, "servers"@)),
            None => None,
        }),
        v !is Object ==> steady_config(v) == v,
{
    lemma_names_differ();
    let a = steady_at(DynamicPort::Inbound, v, "inbounds"@);
    let b = steady_at(DynamicPort::Service, a, "services"@);
    lemma_steady_get(DynamicPort::Inbound, v, "inbounds"@, key);
    lemma_steady_get(DynamicPort::Inbound, v, "inbounds"@, "services"@);
    lemma_steady_get(DynamicPort::Inbound, v, "inbounds"@, "dns"@);
    lemma_steady_get(DynamicPort::Service, a, "services"@, key);
    lemma_steady_get(DynamicPort::Service, a, "services"@, "inbounds"@);
    lemma_steady_get(DynamicPort::Service, a, "services"@, "dns"@);
    if b.get("dns"@) is Some {
        let d = steady_at(DynamicPort::NameServer, b.get("dns"@)->0, "servers"@);
        lemma_with_field_twice(b, "dns"@, d, JsonView::Null);
        if key != "dns"@ {
            lemma_put_other(b, "dns"@, d, key);
        }
        lemma_put_other(b, "dns"@, d, "inbounds"@);
        lemma_put_other(b, "dns"@, d, "services"@);
    }
}

proof fn lemma_steady_get(kind: DynamicPort, v: JsonView, key: Seq<char>, other: Seq<char>)
    ensures
        other != key ==> steady_at(kind, v, key).get(other) == v.get(other),
        steady_at(kind, v, key).get(key) == (match v.get(key) {
            Some(x) => Some(steady_items(kind, x)),
            None => None,
        }),
        v !is Object ==> steady_at(kind, v, key) == v,
{
    lemma_steady_at_effect(kind, v, key);
    if v.get(key) is Some && other != key {
        lemma_put_other(v, key, steady_items(kind, v.get(key)->0), other);
    }
}

/// An inbound of the updater or of a probe is written with port 0 and is otherwise as it was, and
/// any other inbound is as it was altogether.
pub proof fn law_only_drawn_inbounds_lose_their_port(
    value: &mut Json,
    items: Seq<JsonView>,
    i: int,
    tag: Seq<char>,
    field: Seq<char>,
)
    requires
        call_ensures(normalize_kernel_gate_config, (value,), ()),
        old(value)@.items_at("inbounds"@) == Some(items),
        0 <= i < items.len(),
    ensures
        final(value)@.items_at("inbounds"@) is Some,
        ({
            let now = final(value)@.items_at("inbounds"@)->0;
            let drawn = tag == "update-in"@ || tag == "subscription-update-in"@ || begins_with(
                tag,
                "probe-in-"@,
            );
            &&& now.len() == items.len()
            &&& items[i].text_at("tag"@) is None ==> now[i] == items[i]
            &&& items[i].text_at("tag"@) == Some(tag) && !drawn ==> now[i] == items[i]
            &&& items[i].text_at("tag"@) == Some(tag) && drawn ==> now[i].get("listen_port"@)
                == Some(JsonView::Uint(0))
            &&& field != "listen_port"@ ==> now[i].get(field) == items[i].get(field)
        }),
{
    lemma_steady_fields(old(value)@, "inbounds"@);
    let now = final(value)@.items_at("inbounds"@)->0;
    assert(now[i] == steady_item(DynamicPort::Inbound, items[i]));
    lemma_steady_entry(DynamicPort::Inbound, items[i], field);
}

proof fn lemma_steady_entry(kind: DynamicPort, item: JsonView, field: Seq<char>)
    ensures
        has_dynamic_port(kind, item) ==> steady_item(kind, item).get(port_key(kind)) == Some(
            JsonView::Uint(0),
        ),
        !has_dynamic_port(kind, item) ==> steady_item(kind, item) == item,
        field != port_key(kind) ==> steady_item(kind, item).get(field) == item.get(field),
{
    if has_dynamic_port(kind, item) {
        assert(item is Object);
        lemma_with_field_twice(item, port_key(kind), JsonView::Uint(0), JsonView::Null);
        if field != port_key(kind) {
            lemma_put_other(item, port_key(kind), JsonView::Uint(0), field);
        }
    }
}

/// The management service is written with port 0 and is otherwise as it was, and any other service
/// is as it was altogether.
pub proof fn law_only_the_management_service_loses_its_port(
    value: &mut Json,
    items: Seq<JsonView>,
    i: int,
    field: Seq<char>,
)
    requires
        call_ensures(normalize_kernel_gate_config, (value,), ()),
        old(value)@.items_at("services"@) == Some(items),
        0 <= i < items.len(),
    ensures
        final(value)@.items_at("services"@) is Some,
        ({
            let now = final(value)@.items_at("services"@)->0;
            let drawn = items[i].text_at("type"@) == Some("api"@);
            &&& now.len() == items.len()
            &&& !drawn ==> now[i] == items[i]
            &&& drawn ==> now[i].get("listen_port"@) == Some(JsonView::Uint(0))
            &&& field != "listen_port"@ ==> now[i].get(field) == items[i].get(field)
        }),
{
    lemma_steady_fields(old(value)@, "services"@);
    let now = final(value)@.items_at("services"@)->0;
    assert(now[i] == steady_item(DynamicPort::Service, items[i]));
    lemma_steady_entry(DynamicPort::Service, items[i], field);
}

/// The name server that races is written with port 0 and is otherwise as it was, any other name
/// server is as it was altogether, and so is everything else about name resolution.
pub proof fn law_only_the_racing_name_server_loses_its_port(
    value: &mut Json,
    dns: JsonView,
    items: Seq<JsonView>,
    i: int,
    field: Seq<char>,
)
    requires
        call_ensures(normalize_kernel_gate_config, (value,), ()),
        old(value)@.get("dns"@) == Some(dns),
    ensures
        final(value)@.get("dns"@) is Some,
        field != "servers"@ ==> (final(value)@.get("dns"@)->0).get(field) == dns.get(field),
        dns.items_at("servers"@) == Some(items) && 0 <= i < items.len() ==> {
            let now = (final(value)@.get("dns"@)->0).items_at("servers"@)->0;
            let drawn = items[i].text_at("tag"@) == Some("dns-node-race"@);
            &&& (final(value)@.get("dns"@)->0).items_at("servers"@) is Some
            &&& now.len() == items.len()
            &&& !drawn ==> now[i] == items[i]
            &&& drawn ==> now[i].get("server_port"@) == Some(JsonView::Uint(0))
            &&& field != "server_port"@ ==> now[i].get(field) == items[i].get(field)
        },
{
    lemma_steady_fields(old(value)@, "dns"@);
    lemma_steady_get(DynamicPort::NameServer, dns, "servers"@, field);
    if dns.items_at("servers"@) == Some(items) && 0 <= i < items.len() {
        let now = (final(value)@.get("dns"@)->0).items_at("servers"@)->0;
        assert(now[i] == steady_item(DynamicPort::NameServer, items[i]));
        lemma_steady_entry(DynamicPort::NameServer, items[i], field);
    }
}

/// A configuration is recognised by the bytes of what is left once the drawn ports are out, so two
/// configurations of which the same is left are recognised as one.
pub proof fn law_a_configuration_is_recognised_without_its_ports(
    config: Json,
    r: Vec<u8>,
    value: &mut Json,
    other: Json,
    q: Vec<u8>,
    other_value: &mut Json,
)
    requires
        call_ensures(kernel_gate_bytes, (config,), r),
        *old(value) == config,
        call_ensures(normalize_kernel_gate_config, (value,), ()),
        call_ensures(kernel_gate_bytes, (other,), q),
        *old(other_value) == other,
        call_ensures(normalize_kernel_gate_config, (other_value,), ()),
    ensures
        r@ == compact_bytes(rebuilt(final(value)@)),
        final(value)@ == final(other_value)@ ==> r@ == q@,
{
}

} // verus!
