//! The rule files that name the addresses of a tailnet: written for the core, read back by the
//! next start, and extended by what is observed.

use vstd::prelude::*;

use crate::json::{
    field_views, first_key_at, json_views, keys_of, lemma_array_view, lemma_get, lemma_object_view,
    lemma_rebuilt_canonical, parse_json, parsed_json, pretty_text, pretty_value, value_of, Json, JsonView,
};
use crate::text::{
    chars_of, differs_first_at, is_space, lemma_trimmed, opt_view, same_text, same_texts,
    strictly_sorted, text_less, text_of, trim, trimmed, trimmed_bounds, views,
};

verus! {

/// What a rule file says: one rule, with these address ranges.
pub open spec fn rule_tree(cidrs: Seq<Seq<char>>) -> JsonView {
    JsonView::Object(
        seq![
            (
                "rules"@,
                JsonView::Array(
                    seq![
                        JsonView::Object(
                            seq![
                                (
                                    "ip_cidr"@,
                                    JsonView::Array(
                                        cidrs.map_values(|c: Seq<char>| JsonView::Str(c)),
                                    ),
                                ),
                            ],
                        ),
                    ],
                ),
            ),
            ("version"@, JsonView::Uint(1)),
        ],
    )
}

/// The texts among the items of an array.
pub open spec fn texts_among(items: Seq<JsonView>) -> Seq<Seq<char>>
    decreases items.len(),
{
    if items.len() == 0 {
        Seq::empty()
    } else {
        match items.last().text() {
            Some(t) => texts_among(items.drop_last()).push(t),
            None => texts_among(items.drop_last()),
        }
    }
}

/// The address ranges of rules, in order. A rule without a list of them has none.
pub open spec fn ranges_of(rules: Seq<JsonView>) -> Seq<Seq<char>>
    decreases rules.len(),
{
    if rules.len() == 0 {
        Seq::empty()
    } else {
        match rules.last().items_at("ip_cidr"@) {
            Some(items) => ranges_of(rules.drop_last()) + texts_among(items),
            None => ranges_of(rules.drop_last()),
        }
    }
}

/// The address ranges that a tree names, where it is one of rules.
pub open spec fn cidrs_in(tree: JsonView) -> Option<Seq<Seq<char>>> {
    match tree.items_at("rules"@) {
        Some(rules) => Some(ranges_of(rules)),
        None => None,
    }
}

/// The address ranges that a text names.
pub open spec fn cidrs_in_text(text: Seq<char>) -> Option<Seq<Seq<char>>> {
    match parsed_json(text) {
        Some(tree) => cidrs_in(tree),
        None => None,
    }
}

/// The texts of an optional list.
pub open spec fn opt_list(v: Option<Vec<String>>) -> Option<Seq<Seq<char>>> {
    match v {
        Some(l) => Some(views(l@)),
        None => None,
    }
}

/// The address ranges that a tree names, where it is one of rules.
pub fn cidrs_of(tree: &Json) -> (r: Option<Vec<String>>)
    ensures
        opt_list(r) == cidrs_in(tree@),
{
    let rules = match tree.items_at("rules") {
        Some(r) => r,
        None => {
            return None;
        },
    };
    let ghost all = json_views(rules@);
    let mut out: Vec<String> = Vec::new();
    assert(views(out@) =~= Seq::empty());
    let mut i: usize = 0;
    while i < rules.len()
        invariant
            i <= rules@.len(),
            all == json_views(rules@),
            views(out@) == ranges_of(all.take(i as int)),
        decreases rules@.len() - i,
    {
        let ghost t = all.take(i + 1);
        assert(t.drop_last() =~= all.take(i as int));
        assert(t.last() == rules@[i as int]@);
        let ghost before = views(out@);
        if let Some(list) = rules[i].items_at("ip_cidr") {
            let ghost items = json_views(list@);
            let mut k: usize = 0;
            assert(before + texts_among(items.take(0)) =~= before);
            while k < list.len()
                invariant
                    k <= list@.len(),
                    items == json_views(list@),
                    views(out@) == before + texts_among(items.take(k as int)),
                decreases list@.len() - k,
            {
                let ghost u = items.take(k + 1);
                assert(u.drop_last() =~= items.take(k as int));
                assert(u.last() == list@[k as int]@);
                let ghost earlier = out@;
                if let Some(s) = list[k].as_text() {
                    out.push(s.clone());
                    assert(views(out@) =~= views(earlier).push(s@));
                    assert(views(out@) =~= before + texts_among(u));
                }
                k += 1;
            }
            assert(items.take(k as int) =~= items);
        }
        i += 1;
    }
    assert(all.take(i as int) =~= all);
    Some(out)
}

/// The address ranges that a rule file names. `None` where it is no rule file.
pub fn parse_tailnet_rule_file_cidrs(content: &str) -> (r: Option<Vec<String>>)
    ensures
        opt_list(r) == cidrs_in_text(content@),
{
    match parse_json(content) {
        Some(tree) => cidrs_of(&tree),
        None => None,
    }
}

proof fn lemma_rule_keys()
    ensures
        text_less("rules"@, "version"@),
        "rules"@ != "version"@,
{
    reveal_strlit("rules");
    reveal_strlit("version");
    assert("rules"@.len() == 5 && "version"@.len() == 7);
    assert("rules"@[0] == 'r' && "version"@[0] == 'v');
    assert("rules"@.subrange(0, 0) =~= "version"@.subrange(0, 0));
    assert(differs_first_at("rules"@, "version"@, 0));
}

/// A rule file is a tree that can be read back.
proof fn lemma_rule_tree_canonical(cidrs: Seq<Seq<char>>)
    ensures
        rule_tree(cidrs).canonical(127),
{
    lemma_rule_keys();
    let list = cidrs.map_values(|c: Seq<char>| JsonView::Str(c));
    let ranges = JsonView::Array(list);
    assert(ranges.canonical(124)) by {
        assert forall|i: int| 0 <= i < list.len() implies (#[trigger] list[i]).canonical(123) by {}
    }
    let rule_fields = seq![("ip_cidr"@, ranges)];
    let rule = JsonView::Object(rule_fields);
    assert(rule.canonical(125)) by {
        assert(strictly_sorted(keys_of(rule_fields)));
        assert forall|i: int| 0 <= i < rule_fields.len() implies (
        #[trigger] rule_fields[i]).1.canonical(124) by {}
    }
    let rules = seq![rule];
    assert(JsonView::Array(rules).canonical(126)) by {
        assert forall|i: int| 0 <= i < rules.len() implies (#[trigger] rules[i]).canonical(125) by {}
    }
    let fields = seq![
        ("rules"@, JsonView::Array(rules)),
        ("version"@, JsonView::Uint(1)),
    ];
    assert(rule_tree(cidrs) == JsonView::Object(fields));
    assert(strictly_sorted(keys_of(fields))) by {
        let k = keys_of(fields);
        assert(k.len() == 2 && k[0] == "rules"@ && k[1] == "version"@);
    }
    assert forall|i: int| 0 <= i < fields.len() implies (#[trigger] fields[i]).1.canonical(126) by {
        if i == 1 {
            assert(fields[1].1 == JsonView::Uint(1));
        }
    }
}

proof fn lemma_texts_among_strings(cidrs: Seq<Seq<char>>)
    ensures
        texts_among(cidrs.map_values(|c: Seq<char>| JsonView::Str(c))) == cidrs,
    decreases cidrs.len(),
{
    let list = cidrs.map_values(|c: Seq<char>| JsonView::Str(c));
    if cidrs.len() > 0 {
        lemma_texts_among_strings(cidrs.drop_last());
        assert(list.drop_last() =~= cidrs.drop_last().map_values(
            |c: Seq<char>| JsonView::Str(c),
        ));
        assert(list.last() == JsonView::Str(cidrs.last()));
        assert(cidrs.drop_last().push(cidrs.last()) =~= cidrs);
    } else {
        assert(texts_among(list) =~= cidrs);
    }
}

/// A rule file names the address ranges that it was made of, in their order.
pub proof fn law_a_rule_file_names_its_ranges(cidrs: Seq<Seq<char>>)
    ensures
        cidrs_in(rule_tree(cidrs)) == Some(cidrs),
{
    let list = cidrs.map_values(|c: Seq<char>| JsonView::Str(c));
    let rule_fields = seq![("ip_cidr"@, JsonView::Array(list))];
    let rule = JsonView::Object(rule_fields);
    let rules = seq![rule];
    let fields = seq![
        ("rules"@, JsonView::Array(rules)),
        ("version"@, JsonView::Uint(1)),
    ];
    assert(first_key_at(fields, "rules"@, 0));
    lemma_get(fields, "rules"@, 0);
    assert(first_key_at(rule_fields, "ip_cidr"@, 0));
    lemma_get(rule_fields, "ip_cidr"@, 0);
    lemma_texts_among_strings(cidrs);
    assert(rule_tree(cidrs) == JsonView::Object(fields));
    assert(rules.drop_last() =~= Seq::<JsonView>::empty());
    assert(ranges_of(rules.drop_last()) =~= Seq::<Seq<char>>::empty());
    assert(ranges_of(rules) =~= cidrs);
}

/// The text of a rule file that names these address ranges: reading it gives them back.
pub fn tailnet_rule_file_json(cidrs: &Vec<String>) -> (r: String)
    ensures
        r@ == pretty_text(rule_tree(views(cidrs@))),
        parsed_json(r@) == Some(rule_tree(views(cidrs@))),
        cidrs_in_text(r@) == Some(views(cidrs@)),
{
    let mut list: Vec<Json> = Vec::new();
    let mut i: usize = 0;
    while i < cidrs.len()
        invariant
            i <= cidrs@.len(),
            list@.len() == i,
            forall|k: int| 0 <= k < i ==> (#[trigger] list@[k])@ == JsonView::Str(cidrs@[k]@),
        decreases cidrs@.len() - i,
    {
        list.push(Json::Str(cidrs[i].clone()));
        i += 1;
    }
    let ghost ranges = views(cidrs@).map_values(|c: Seq<char>| JsonView::Str(c));
    proof {
        lemma_array_view(list);
        assert(json_views(list@) =~= ranges);
    }
    let mut rule_fields: Vec<(String, Json)> = Vec::new();
    rule_fields.push(("ip_cidr".to_owned(), Json::Array(list)));
    proof {
        lemma_object_view(rule_fields);
        assert(field_views(rule_fields@) =~= seq![("ip_cidr"@, JsonView::Array(ranges))]);
    }
    let mut rules: Vec<Json> = Vec::new();
    rules.push(Json::Object(rule_fields));
    proof {
        lemma_array_view(rules);
        assert(json_views(rules@) =~= seq![
            JsonView::Object(seq![("ip_cidr"@, JsonView::Array(ranges))]),
        ]);
    }
    let mut fields: Vec<(String, Json)> = Vec::new();
    fields.push(("rules".to_owned(), Json::Array(rules)));
    fields.push(("version".to_owned(), Json::Uint(1)));
    proof {
        lemma_object_view(fields);
        assert(field_views(fields@) =~= rule_tree(views(cidrs@))->Object_0);
        lemma_rule_tree_canonical(views(cidrs@));
        lemma_rebuilt_canonical(rule_tree(views(cidrs@)), 127);
        law_a_rule_file_names_its_ranges(views(cidrs@));
    }
    let tree = Json::Object(fields);
    pretty_value(&value_of(&tree))
}

/// The last slash stands at `i`.
pub open spec fn last_slash(s: Seq<char>, i: int) -> bool {
    &&& 0 <= i < s.len()
    &&& s[i] == '/'
    &&& forall|k: int| i < k < s.len() ==> s[k] != '/'
}

/// The address of a range that holds it alone.
pub open spec fn sole_address(cidr: Seq<char>) -> Option<Seq<char>> {
    let s = trimmed(cidr);
    if exists|i: int| last_slash(s, i) {
        let i = choose|i: int| last_slash(s, i);
        if s.skip(i + 1) == "32"@ || s.skip(i + 1) == "128"@ {
            Some(s.take(i))
        } else {
            None
        }
    } else {
        None
    }
}

/// The address of a range that holds it alone.
pub fn bare_addr_of_host_cidr(cidr: &str) -> (r: Option<String>)
    ensures
        opt_view(r) == sole_address(cidr@),
{
    let t = trim(cidr);
    let v = chars_of(t.as_str());
    let mut end: usize = v.len();
    while end > 0 && v[end - 1] != '/'
        invariant
            end <= v@.len(),
            forall|k: int| end <= k < v@.len() ==> v@[k] != '/',
        decreases end,
    {
        end -= 1;
    }
    if end == 0 {
        assert forall|i: int| !last_slash(t@, i) by {}
        return None;
    }
    proof {
        assert(last_slash(t@, end - 1));
        let i = choose|i: int| last_slash(t@, i);
        if i < end - 1 {
            assert(t@[end - 1] != '/');
        }
        if i > end - 1 {
            assert(t@[i] != '/');
        }
        assert(t@.skip(end as int) =~= v@.subrange(end as int, v@.len() as int));
        assert(t@.take(end - 1) =~= v@.subrange(0, end - 1));
    }
    let mask = text_of(&v, end, v.len());
    if same_text(mask.as_str(), "32") || same_text(mask.as_str(), "128") {
        Some(text_of(&v, 0, end - 1))
    } else {
        None
    }
}

/// An address that was made a range of its own is found again in it. The address is not empty and
/// has no white space around it.
pub proof fn law_an_address_is_found_in_its_range(addr: Seq<char>, wide: bool)
    requires
        addr.len() > 0,
        !is_space(addr[0]),
    ensures
        sole_address(
            addr + "/"@ + (if wide {
                "128"@
            } else {
                "32"@
            }),
        ) == Some(addr),
{
    reveal_strlit("/");
    reveal_strlit("32");
    reveal_strlit("128");
    let mask = if wide {
        "128"@
    } else {
        "32"@
    };
    assert("/"@.len() == 1 && "/"@[0] == '/');
    assert("32"@.len() == 2 && "32"@[0] == '3' && "32"@[1] == '2');
    assert("128"@.len() == 3 && "128"@[0] == '1' && "128"@[1] == '2' && "128"@[2] == '8');
    let s = addr + "/"@ + mask;
    assert(trimmed_bounds(s, 0, s.len() as int));
    lemma_trimmed(s, 0, s.len() as int);
    assert(s.subrange(0, s.len() as int) =~= s);
    let n = addr.len() as int;
    assert(last_slash(s, n));
    let i = choose|i: int| last_slash(s, i);
    if i > n {
        assert(s[i] == mask[i - n - 1]);
    }
    if i < n {
        assert(s[n] != '/');
    }
    assert(s.skip(n + 1) =~= mask);
    assert(s.take(n) =~= addr);
}

/// The addresses of those ranges that hold one alone, in order.
pub open spec fn sole_addresses(cidrs: Seq<Seq<char>>) -> Seq<Seq<char>>
    decreases cidrs.len(),
{
    if cidrs.len() == 0 {
        Seq::empty()
    } else {
        match sole_address(cidrs.last()) {
            Some(a) => sole_addresses(cidrs.drop_last()).push(a),
            None => sole_addresses(cidrs.drop_last()),
        }
    }
}

/// The addresses of those ranges that hold one alone, in order.
pub fn bare_addresses(cidrs: &Vec<String>) -> (r: Vec<String>)
    ensures
        views(r@) == sole_addresses(views(cidrs@)),
{
    let mut out: Vec<String> = Vec::new();
    assert(views(out@) =~= Seq::empty());
    let mut i: usize = 0;
    while i < cidrs.len()
        invariant
            i <= cidrs@.len(),
            views(out@) == sole_addresses(views(cidrs@).take(i as int)),
        decreases cidrs@.len() - i,
    {
        let ghost t = views(cidrs@).take(i + 1);
        assert(t.drop_last() =~= views(cidrs@).take(i as int));
        assert(t.last() == cidrs@[i as int]@);
        let ghost before = out@;
        if let Some(a) = bare_addr_of_host_cidr(cidrs[i].as_str()) {
            let ghost text = a@;
            out.push(a);
            assert(views(out@) =~= views(before).push(text));
        }
        i += 1;
    }
    assert(views(cidrs@).take(i as int) =~= views(cidrs@));
    out
}

/// The addresses that a frame of a tailnet's state names.
pub struct TailnetFrame {
    pub own: Vec<String>,
    /// Those of the peers of each group.
    pub group_peers: Vec<Vec<String>>,
    /// Those of the peers that are in no group.
    pub peers: Vec<Vec<String>>,
}

/// The texts of lists, one list after the other.
pub open spec fn chained(lists: Seq<Vec<String>>) -> Seq<Seq<char>>
    decreases lists.len(),
{
    if lists.len() == 0 {
        Seq::empty()
    } else {
        chained(lists.drop_last()) + views(lists.last()@)
    }
}

fn append_all(out: &mut Vec<String>, list: &Vec<String>)
    ensures
        views(final(out)@) == views(old(out)@) + views(list@),
{
    let mut i: usize = 0;
    assert(views(out@) + views(list@).take(0) =~= views(out@));
    while i < list.len()
        invariant
            i <= list@.len(),
            views(out@) == views(old(out)@) + views(list@).take(i as int),
        decreases list@.len() - i,
    {
        let ghost before = out@;
        out.push(list[i].clone());
        assert(views(out@) =~= views(before).push(list@[i as int]@));
        assert(views(list@).take(i + 1) =~= views(list@).take(i as int).push(list@[i as int]@));
        assert(views(out@) =~= views(old(out)@) + views(list@).take(i + 1));
        i += 1;
    }
    assert(views(list@).take(i as int) =~= views(list@));
}

fn append_lists(out: &mut Vec<String>, lists: &Vec<Vec<String>>)
    ensures
        views(final(out)@) == views(old(out)@) + chained(lists@),
{
    let mut i: usize = 0;
    assert(views(out@) + chained(lists@.take(0)) =~= views(out@));
    while i < lists.len()
        invariant
            i <= lists@.len(),
            views(out@) == views(old(out)@) + chained(lists@.take(i as int)),
        decreases lists@.len() - i,
    {
        let ghost t = lists@.take(i + 1);
        assert(t.drop_last() =~= lists@.take(i as int));
        assert(t.last() == lists@[i as int]);
        append_all(out, &lists[i]);
        assert(views(out@) =~= views(old(out)@) + chained(t));
        i += 1;
    }
    assert(lists@.take(i as int) =~= lists@);
}

/// The addresses that a frame names: its own, those of the groups' peers and those of the others.
/// Doublets are still in.
pub fn observed_addresses_of_event(event: &TailnetFrame) -> (r: Vec<String>)
    ensures
        views(r@) == views(event.own@) + chained(event.group_peers@) + chained(event.peers@),
{
    let mut out: Vec<String> = Vec::new();
    append_all(&mut out, &event.own);
    assert(views(out@) =~= views(event.own@));
    append_lists(&mut out, &event.group_peers);
    append_lists(&mut out, &event.peers);
    out
}

/// What has been observed of each tailnet node, by its identifier.
pub struct ObservedTailnet {
    pub entries: Vec<(String, Vec<String>)>,
}

/// What has been observed of each node. Of two entries with one identifier the later counts.
pub open spec fn observed_map(v: Seq<(String, Vec<String>)>) -> Map<Seq<char>, Seq<Seq<char>>>
    decreases v.len(),
{
    if v.len() == 0 {
        Map::empty()
    } else {
        observed_map(v.drop_last()).insert(v.last().0@, views(v.last().1@))
    }
}

impl ObservedTailnet {
    /// What has been observed of each node.
    pub open spec fn seen(self) -> Map<Seq<char>, Seq<Seq<char>>> {
        observed_map(self.entries@)
    }

    /// What has been observed of a node, and nothing where it is not known.
    pub open spec fn seen_of(self, id: Seq<char>) -> Seq<Seq<char>> {
        if self.seen().dom().contains(id) {
            self.seen()[id]
        } else {
            Seq::empty()
        }
    }

    /// Nothing has been observed.
    pub fn new() -> (r: Self)
        ensures
            r.seen() == Map::<Seq<char>, Seq<Seq<char>>>::empty(),
    {
        ObservedTailnet { entries: Vec::new() }
    }

    /// What is known of a node once more addresses were observed: what was known, followed by
    /// them. Doublets are still in. `None` where none were observed, and then nothing changes.
    pub fn merge_observed(&self, server_id: &str, addrs: &Vec<String>) -> (r: Option<Vec<String>>)
        ensures
            addrs@.len() == 0 ==> r is None,
            addrs@.len() > 0 ==> opt_list(r) == Some(self.seen_of(server_id@) + views(addrs@)),
    {
        if addrs.len() == 0 {
            return None;
        }
        let mut out: Vec<String> = Vec::new();
        let mut i: usize = self.entries.len();
        let mut found = false;
        assert(self.entries@.take(i as int) =~= self.entries@);
        assert(views(out@) =~= Seq::<Seq<char>>::empty());
        while i > 0 && !found
            invariant
                i <= self.entries@.len(),
                !found ==> views(out@) == Seq::<Seq<char>>::empty(),
                !found ==> self.seen().dom().contains(server_id@) == observed_map(
                    self.entries@.take(i as int),
                ).dom().contains(server_id@),
                !found && self.seen().dom().contains(server_id@) ==> self.seen()[server_id@]
                    == observed_map(self.entries@.take(i as int))[server_id@],
                found ==> views(out@) == self.seen_of(server_id@),
            decreases i,
        {
            let ghost t = self.entries@.take(i as int);
            assert(t.drop_last() =~= self.entries@.take(i - 1));
            assert(t.last() == self.entries@[i - 1]);
            if same_text(self.entries[i - 1].0.as_str(), server_id) {
                append_all(&mut out, &self.entries[i - 1].1);
                assert(views(out@) =~= views(self.entries@[i - 1].1@));
                found = true;
            }
            i -= 1;
        }
        append_all(&mut out, addrs);
        Some(out)
    }

    /// What is known of a node from now on.
    pub fn store(&mut self, server_id: &str, addrs: Vec<String>)
        ensures
            final(self).seen() == old(self).seen().insert(server_id@, views(addrs@)),
    {
        let ghost before = self.entries@;
        let mut i: usize = self.entries.len();
        while i > 0
            invariant
                i <= self.entries@.len(),
                self.entries@ == before,
                before == old(self).entries@,
                forall|k: int| i <= k < before.len() ==> (#[trigger] before[k]).0@ != server_id@,
            decreases i,
        {
            if same_text(self.entries[i - 1].0.as_str(), server_id) {
                let entry = (server_id.to_owned(), addrs);
                proof {
                    lemma_replace_last(before, i - 1, entry);
                }
                self.entries.set(i - 1, entry);
                return;
            }
            i -= 1;
        }
        self.entries.push((server_id.to_owned(), addrs));
        assert(self.entries@.drop_last() =~= before);
    }
}

/// Replacing the last entry of an identifier is storing under it.
proof fn lemma_replace_last(v: Seq<(String, Vec<String>)>, i: int, entry: (String, Vec<String>))
    requires
        0 <= i < v.len(),
        v[i].0@ == entry.0@,
        forall|k: int| i < k < v.len() ==> (#[trigger] v[k]).0@ != entry.0@,
    ensures
        observed_map(v.update(i, entry)) == observed_map(v).insert(entry.0@, views(entry.1@)),
    decreases v.len(),
{
    let u = v.update(i, entry);
    let w = v.drop_last();
    if i == v.len() - 1 {
        assert(u.drop_last() =~= w);
        assert(observed_map(u) =~= observed_map(v).insert(entry.0@, views(entry.1@)));
    } else {
        assert forall|k: int| i < k < w.len() implies (#[trigger] w[k]).0@ != entry.0@ by {
            assert(w[k] == v[k]);
        }
        lemma_replace_last(w, i, entry);
        assert(u.drop_last() =~= w.update(i, entry));
        assert(v[v.len() - 1].0@ != entry.0@);
        assert(observed_map(u) =~= observed_map(v).insert(entry.0@, views(entry.1@)));
    }
}

/// Merging what was observed loses nothing that was known: it stands at the beginning of what is
/// known afterwards.
pub proof fn law_merging_keeps_what_was_known(
    o: ObservedTailnet,
    id: Seq<char>,
    addrs: Seq<Seq<char>>,
    merged: Seq<Seq<char>>,
    known: Seq<char>,
)
    requires
        merged == o.seen_of(id) + addrs,
        o.seen_of(id).contains(known),
    ensures
        merged.contains(known),
{
    let i = choose|i: int| 0 <= i < o.seen_of(id).len() && o.seen_of(id)[i] == known;
    assert(merged[i] == known);
}

/// What is done about a rule file.
pub enum RuleFileStep {
    /// It stays as it is.
    Keep,
    Write(String),
}

/// The file of a node is to name these ranges. `current` is what it holds, where it is there. One
/// without ranges is not written, and one that says the same already is left alone.
pub fn rule_file_step(cidrs: &Vec<String>, current: Option<&str>) -> (r: RuleFileStep)
    ensures
        if cidrs@.len() == 0 || (current matches Some(c) && c@ == pretty_text(
            rule_tree(views(cidrs@)),
        )) {
            r is Keep
        } else {
            r matches RuleFileStep::Write(s) && s@ == pretty_text(rule_tree(views(cidrs@)))
        },
{
    if cidrs.len() == 0 {
        return RuleFileStep::Keep;
    }
    let content = tailnet_rule_file_json(cidrs);
    if let Some(c) = current {
        if same_text(c, content.as_str()) {
            return RuleFileStep::Keep;
        }
    }
    RuleFileStep::Write(content)
}

/// New ranges were observed while the core runs. `current` is what the file holds, where it is
/// there. What it names now, followed by them, or `None` where nothing is to be done: a frame
/// without addresses clears nothing, and a file that is not there or is no rule file is not made.
pub fn sync_candidates(hosts: &Vec<String>, current: Option<&str>) -> (r: Option<
    (Vec<String>, Vec<String>),
>)
    ensures
        match (current, r) {
            (Some(c), Some(p)) => {
                &&& hosts@.len() > 0
                &&& cidrs_in_text(c@) == Some(views(p.0@))
                &&& views(p.1@) == views(p.0@) + views(hosts@)
            },
            (Some(c), None) => hosts@.len() == 0 || cidrs_in_text(c@) is None,
            (None, Some(_)) => false,
            (None, None) => true,
        },
{
    if hosts.len() == 0 {
        return None;
    }
    let text = match current {
        Some(c) => c,
        None => {
            return None;
        },
    };
    match parse_tailnet_rule_file_cidrs(text) {
        Some(named) => {
            let mut union: Vec<String> = Vec::new();
            append_all(&mut union, &named);
            assert(views(union@) =~= views(named@));
            append_all(&mut union, hosts);
            Some((named, union))
        },
        None => None,
    }
}

/// The file that names `named` is to name `merged`: one that names the same is left alone, so that
/// nobody is told of a change that is none.
pub fn sync_step(named: &Vec<String>, merged: &Vec<String>) -> (r: RuleFileStep)
    ensures
        if views(named@) == views(merged@) {
            r is Keep
        } else {
            r matches RuleFileStep::Write(s) && s@ == pretty_text(rule_tree(views(merged@)))
        },
{
    if same_texts(named, merged) {
        RuleFileStep::Keep
    } else {
        RuleFileStep::Write(tailnet_rule_file_json(merged))
    }
}

proof fn lemma_texts_of_two(a: Seq<JsonView>, b: Seq<JsonView>)
    ensures
        texts_among(a + b) == texts_among(a) + texts_among(b),
    decreases b.len(),
{
    if b.len() == 0 {
        assert(a + b =~= a);
        assert(texts_among(a) + texts_among(b) =~= texts_among(a));
    } else {
        lemma_texts_of_two(a, b.drop_last());
        assert((a + b).drop_last() =~= a + b.drop_last());
        assert((a + b).last() == b.last());
        assert(texts_among(a + b) =~= texts_among(a) + texts_among(b));
    }
}

proof fn lemma_ranges_of_two(a: Seq<JsonView>, b: Seq<JsonView>)
    ensures
        ranges_of(a + b) == ranges_of(a) + ranges_of(b),
    decreases b.len(),
{
    if b.len() == 0 {
        assert(a + b =~= a);
        assert(ranges_of(a) + ranges_of(b) =~= ranges_of(a));
    } else {
        lemma_ranges_of_two(a, b.drop_last());
        assert((a + b).drop_last() =~= a + b.drop_last());
        assert((a + b).last() == b.last());
        assert(ranges_of(a + b) =~= ranges_of(a) + ranges_of(b));
    }
}

/// Rules are read one after the other, and in a rule its list of ranges item by item: what two
/// lists of rules name is what the first names followed by what the second does, a rule without a
/// list names nothing, and of the items of a list the texts count and nothing else.
pub proof fn law_ranges_are_read_rule_by_rule(
    whole: Json,
    front: Json,
    back: Json,
    r: Option<Vec<String>>,
    p: Option<Vec<String>>,
    q: Option<Vec<String>>,
    a: Seq<JsonView>,
    b: Seq<JsonView>,
    items: Seq<JsonView>,
    item: JsonView,
)
    requires
        call_ensures(cidrs_of, (&whole,), r),
        call_ensures(cidrs_of, (&front,), p),
        call_ensures(cidrs_of, (&back,), q),
        front@.items_at("rules"@) == Some(a),
        back@.items_at("rules"@) == Some(b),
    ensures
        whole@.items_at("rules"@) is None ==> r is None,
        whole@.items_at("rules"@) is Some ==> r is Some,
        p is Some && q is Some,
        whole@.items_at("rules"@) == Some(a + b) ==> views(r->0@) == views(p->0@) + views(q->0@),
        a.len() == 0 ==> p->0@.len() == 0,
        a.len() == 1 && a[0].items_at("ip_cidr"@) is None ==> p->0@.len() == 0,
        a.len() == 1 && b.len() == 1 && a[0].items_at("ip_cidr"@) == Some(items)
            && b[0].items_at("ip_cidr"@) == Some(items.push(item)) ==> views(q->0@) == (if item
            is Str {
            views(p->0@).push(item->Str_0)
        } else {
            views(p->0@)
        }),
        a.len() == 1 && a[0].items_at("ip_cidr"@) == Some(Seq::<JsonView>::empty())
            ==> p->0@.len() == 0,
{
    assert(opt_list(p) == Some(ranges_of(a)));
    assert(opt_list(q) == Some(ranges_of(b)));
    assert(views(p->0@).len() == p->0@.len());
    lemma_ranges_of_two(a, b);
    if a.len() == 1 {
        assert(a.drop_last().len() == 0);
        assert(ranges_of(a.drop_last()) =~= Seq::empty());
        if a[0].items_at("ip_cidr"@) is Some {
            assert(ranges_of(a) =~= texts_among(a[0].items_at("ip_cidr"@)->0));
        }
    }
    if b.len() == 1 && b[0].items_at("ip_cidr"@) is Some {
        assert(b.drop_last().len() == 0);
        assert(ranges_of(b.drop_last()) =~= Seq::empty());
        assert(ranges_of(b) =~= texts_among(b[0].items_at("ip_cidr"@)->0));
    }
    assert(items.push(item).drop_last() =~= items);
    assert(items.push(item).last() == item);
}

/// What a rule file is written for is what it is read as, and it is one that the core takes: a
/// version and one rule. A text that is no JSON is no rule file.
pub proof fn law_a_rule_file_is_read_as_it_was_written(
    cidrs: Vec<String>,
    file: String,
    content: &str,
    r: Option<Vec<String>>,
    tree: Option<Json>,
    named: Option<Vec<String>>,
)
    requires
        call_ensures(tailnet_rule_file_json, (&cidrs,), file),
        call_ensures(parse_tailnet_rule_file_cidrs, (content,), r),
        call_ensures(parse_json, (content,), tree),
        tree is Some ==> call_ensures(cidrs_of, (&tree->0,), named),
    ensures
        content@ == file@ ==> {
            &&& r is Some
            &&& views(r->0@) == views(cidrs@)
            &&& tree is Some
            &&& tree->0@.get("version"@) == Some(JsonView::Uint(1))
            &&& tree->0@.items_at("rules"@) is Some
            &&& (tree->0@.items_at("rules"@)->0).len() == 1
        },
        tree is None ==> r is None,
        tree is Some ==> opt_list(r) == opt_list(named),
{
    if content@ == file@ {
        let t = rule_tree(views(cidrs@));
        assert(tree->0@ == t);
        let fields = t->Object_0;
        lemma_rule_keys();
        assert(fields[0].0 == "rules"@ && fields[1].0 == "version"@);
        assert(first_key_at(fields, "rules"@, 0));
        lemma_get(fields, "rules"@, 0);
        assert(first_key_at(fields, "version"@, 1));
        lemma_get(fields, "version"@, 1);
    }
}

/// A range holds an address alone exactly where it is the address with one of the two longest
/// prefixes behind it, white space around it aside; and then the address is what stands before.
pub proof fn law_a_sole_address_has_the_longest_prefix(
    cidr: &str,
    r: Option<String>,
    addr: Seq<char>,
)
    requires
        call_ensures(bare_addr_of_host_cidr, (cidr,), r),
    ensures
        trimmed(cidr@) == addr + "/32"@ || trimmed(cidr@) == addr + "/128"@ ==> r is Some && r->0@
            == addr,
        r is Some ==> trimmed(cidr@) == r->0@ + "/32"@ || trimmed(cidr@) == r->0@ + "/128"@,
{
    reveal_strlit("/32");
    reveal_strlit("/128");
    reveal_strlit("32");
    reveal_strlit("128");
    let s = trimmed(cidr@);
    assert(opt_view(r) == sole_address(cidr@));
    let n = addr.len() as int;
    if s == addr + "/32"@ || s == addr + "/128"@ {
        assert(s[n] == '/');
        assert forall|k: int| n < k < s.len() implies s[k] != '/' by {
            if s == addr + "/32"@ {
                assert(s[k] == "/32"@[k - n]);
            } else {
                assert(s[k] == "/128"@[k - n]);
            }
        }
        assert(last_slash(s, n));
        let i = choose|i: int| last_slash(s, i);
        assert(last_slash(s, i));
        assert(i == n) by {
            if i < n {
                assert(s[n] != '/');
            }
            if n < i {
                assert(s[i] != '/');
            }
        }
        assert(s.take(i) =~= addr);
        if s == addr + "/32"@ {
            assert(s.skip(i + 1) =~= "32"@);
        } else {
            assert(s.skip(i + 1) =~= "128"@);
        }
    }
    if r is Some {
        let i = choose|i: int| last_slash(s, i);
        assert(last_slash(s, i));
        let t = s.take(i);
        let e = s.skip(i + 1);
        assert(s =~= t.push('/') + e);
        if e == "32"@ {
            assert(t.push('/') + e =~= t + "/32"@);
        } else {
            assert(t.push('/') + e =~= t + "/128"@);
        }
    }
}

/// Ranges are looked at one by one: one that holds an address alone adds it at the end, and any
/// other adds nothing.
pub proof fn law_sole_addresses_are_found_one_by_one(
    cidrs: Vec<String>,
    r: Vec<String>,
    more: Vec<String>,
    q: Vec<String>,
    last: &str,
    one: Option<String>,
)
    requires
        call_ensures(bare_addresses, (&cidrs,), r),
        call_ensures(bare_addresses, (&more,), q),
        call_ensures(bare_addr_of_host_cidr, (last,), one),
    ensures
        cidrs@.len() == 0 ==> r@.len() == 0,
        views(more@) == views(cidrs@).push(last@) ==> views(q@) == (if one is Some {
            views(r@).push(one->0@)
        } else {
            views(r@)
        }),
{
    assert(views(cidrs@).len() == cidrs@.len() && views(r@).len() == r@.len());
    let v = views(cidrs@);
    assert(v.push(last@).drop_last() =~= v);
    assert(v.push(last@).last() == last@);
    assert(opt_view(one) == (match one {
        Some(a) => Some(a@),
        None => None,
    }));
}

/// Every address that a frame names is observed: its own first, then those of the groups' peers
/// and then those of the others, list by list.
pub proof fn law_every_address_of_a_frame_is_observed(
    event: TailnetFrame,
    r: Vec<String>,
    before: TailnetFrame,
    p: Vec<String>,
    list: Vec<String>,
)
    requires
        call_ensures(observed_addresses_of_event, (&event,), r),
        call_ensures(observed_addresses_of_event, (&before,), p),
    ensures
        event.group_peers@.len() == 0 && event.peers@.len() == 0 ==> views(r@) == views(event.own@),
        event.own == before.own && event.group_peers == before.group_peers && event.peers@
            == before.peers@.push(list) ==> views(r@) == views(p@) + views(list@),
        event.own == before.own && event.peers@.len() == 0 && before.peers@.len() == 0
            && event.group_peers@ == before.group_peers@.push(list) ==> views(r@) == views(p@)
            + views(list@),
        event.own@.len() == 0 && event.group_peers == before.group_peers && event.peers
            == before.peers ==> views(p@) == views(before.own@) + views(r@),
        event.own == before.own && event.group_peers == before.group_peers && event.peers@.len()
            == 0 ==> exists|rest: Seq<Seq<char>>| views(p@) == #[trigger] (views(r@) + rest),
{
    assert(before.peers@.push(list).drop_last() =~= before.peers@);
    assert(before.group_peers@.push(list).drop_last() =~= before.group_peers@);
    let own = views(event.own@);
    let g = chained(event.group_peers@);
    let o = chained(event.peers@);
    if event.peers@.len() == 0 {
        assert(own + g + o =~= own + g);
        assert(views(p@) =~= views(before.own@) + chained(before.group_peers@) + chained(
            before.peers@,
        ));
        if event.own == before.own && event.group_peers == before.group_peers {
            let rest = chained(before.peers@);
            assert(views(p@) == views(r@) + rest);
        }
    }
    if event.group_peers@.len() == 0 && event.peers@.len() == 0 {
        assert(own + g + o =~= own);
    }
    if event.own@.len() == 0 && event.group_peers == before.group_peers && event.peers
        == before.peers {
        assert(own =~= Seq::empty());
        assert(views(before.own@) + chained(before.group_peers@) + chained(before.peers@)
            =~= views(before.own@) + (own + g + o));
    }
    if event.own == before.own && event.group_peers == before.group_peers && event.peers@
        == before.peers@.push(list) {
        assert(own + g + (chained(before.peers@) + views(list@)) =~= own + g + chained(
            before.peers@,
        ) + views(list@));
    }
    if event.own == before.own && event.peers@.len() == 0 && before.peers@.len() == 0
        && event.group_peers@ == before.group_peers@.push(list) {
        assert(own + (chained(before.group_peers@) + views(list@)) =~= own + chained(
            before.group_peers@,
        ) + views(list@));
        assert(views(p@) =~= own + chained(before.group_peers@));
    }
}

/// What was stored for a node is what it is known by from then on, new addresses follow it, and
/// other nodes are not touched; where none were observed there is nothing to merge.
pub proof fn law_what_was_stored_is_merged_with(
    o: &mut ObservedTailnet,
    id: &str,
    addrs: Vec<String>,
    other: &str,
    more: Vec<String>,
    r: Option<Vec<String>>,
    before: Option<Vec<String>>,
    after: Option<Vec<String>>,
    fresh: ObservedTailnet,
    first: Option<Vec<String>>,
)
    requires
        call_ensures(ObservedTailnet::store, (o, id, addrs), ()),
        call_ensures(ObservedTailnet::merge_observed, (final(o), id, &more), r),
        call_ensures(ObservedTailnet::merge_observed, (old(o), other, &more), before),
        call_ensures(ObservedTailnet::merge_observed, (final(o), other, &more), after),
        call_ensures(ObservedTailnet::new, (), fresh),
        call_ensures(ObservedTailnet::merge_observed, (&fresh, id, &more), first),
    ensures
        r is None <==> more@.len() == 0,
        r is Some ==> views(r->0@) == views(addrs@) + views(more@),
        other@ != id@ ==> opt_list(before) == opt_list(after),
        first is Some ==> views(first->0@) == views(more@),
        more@.len() > 0 ==> first is Some,
{
    if more@.len() > 0 {
        assert(opt_list(r) == Some(views(addrs@) + views(more@)));
        assert(Seq::<Seq<char>>::empty() + views(more@) =~= views(more@));
        assert(opt_list(first) == Some(views(more@)));
    }
}

/// A rule file is written exactly where it has something to name and does not say it already, and
/// what is written is the file of those ranges.
pub proof fn law_a_rule_file_is_written_where_it_says_something_new(
    cidrs: Vec<String>,
    current: Option<&str>,
    r: RuleFileStep,
    file: String,
    named: Vec<String>,
    q: RuleFileStep,
)
    requires
        call_ensures(rule_file_step, (&cidrs, current), r),
        call_ensures(tailnet_rule_file_json, (&cidrs,), file),
        call_ensures(sync_step, (&named, &cidrs), q),
    ensures
        r is Keep <==> cidrs@.len() == 0 || (current is Some && current->0@ == file@),
        r matches RuleFileStep::Write(s) ==> s@ == file@,
        q is Keep <==> views(named@) == views(cidrs@),
        q matches RuleFileStep::Write(s) ==> s@ == file@,
{
}

/// Ranges that were observed are added behind those that the file names now, where there are any
/// and there is such a file; otherwise nothing is to be done.
pub proof fn law_observed_ranges_follow_what_a_file_names(
    hosts: Vec<String>,
    content: &str,
    r: Option<(Vec<String>, Vec<String>)>,
    absent: Option<(Vec<String>, Vec<String>)>,
    named: Option<Vec<String>>,
)
    requires
        call_ensures(sync_candidates, (&hosts, Some(content)), r),
        call_ensures(sync_candidates, (&hosts, None), absent),
        call_ensures(parse_tailnet_rule_file_cidrs, (content,), named),
    ensures
        absent is None,
        r is Some <==> hosts@.len() > 0 && named is Some,
        r is Some ==> views((r->0).0@) == views(named->0@) && views((r->0).1@) == views(named->0@)
            + views(hosts@),
{
}

} // verus!
