//! The ports of a session: which ones may not be drawn, and what becomes of those that were.

use vstd::prelude::*;

verus! {

/// What a port that is drawn may not be.
pub struct PortExclusions {
    pub excluded: Vec<u16>,
    /// The port that is taken where none can be drawn. `None` leaves that to the caller.
    pub fallback: Option<u16>,
}

/// The ports of the configuration: that of the control interface, and those of the local proxy.
#[derive(Clone, Copy, PartialEq, Eq, Structural, Debug)]
pub struct ConfiguredPorts {
    pub control: u16,
    pub http: Option<u16>,
    pub mixed: Option<u16>,
}

/// A port that is there.
pub open spec fn port_seq(p: Option<u16>) -> Seq<u16> {
    match p {
        Some(n) => seq![n],
        None => Seq::empty(),
    }
}

/// The ports of the configuration, which nothing else may take.
pub open spec fn taken(c: ConfiguredPorts) -> Seq<u16> {
    seq![c.control] + port_seq(c.http) + port_seq(c.mixed)
}

fn taken_ports(c: &ConfiguredPorts) -> (r: Vec<u16>)
    ensures
        r@ == taken(*c),
{
    let mut out: Vec<u16> = Vec::new();
    out.push(c.control);
    if let Some(p) = c.http {
        out.push(p);
    }
    if let Some(p) = c.mixed {
        out.push(p);
    }
    assert(out@ =~= taken(*c));
    out
}

/// What the port of the management interface may not be.
pub fn api_port_exclusions(c: &ConfiguredPorts) -> (r: PortExclusions)
    ensures
        r.excluded@ == taken(*c),
        r.fallback is None,
{
    PortExclusions { excluded: taken_ports(c), fallback: None }
}

/// What the port of the updater may not be, once the management interface has its own.
pub fn update_in_exclusions(c: &ConfiguredPorts, api_port: u16) -> (r: PortExclusions)
    ensures
        r.excluded@ == taken(*c).push(api_port),
        r.fallback == Some(c.control.wrapping_add(3)),
{
    let mut excluded = taken_ports(c);
    excluded.push(api_port);
    PortExclusions { excluded, fallback: Some(c.control.wrapping_add(3)) }
}

/// What the port of the subscriptions' updater may not be.
pub fn subscription_exclusions(c: &ConfiguredPorts, api_port: u16, update_in_port: u16) -> (r:
    PortExclusions)
    ensures
        r.excluded@ == taken(*c).push(api_port).push(update_in_port),
        r.fallback == Some(c.control.wrapping_add(4)),
{
    let mut excluded = taken_ports(c);
    excluded.push(api_port);
    excluded.push(update_in_port);
    PortExclusions { excluded, fallback: Some(c.control.wrapping_add(4)) }
}

/// What the ports of the probes may not be: none of those that were drawn before.
pub fn probe_exclusions(
    c: &ConfiguredPorts,
    api_port: u16,
    update_in_port: u16,
    subscription_port: u16,
) -> (r: PortExclusions)
    ensures
        r.excluded@ == taken(*c).push(api_port).push(subscription_port).push(update_in_port),
        r.fallback is None,
{
    let mut excluded = taken_ports(c);
    excluded.push(api_port);
    excluded.push(subscription_port);
    excluded.push(update_in_port);
    PortExclusions { excluded, fallback: None }
}

/// The first of the ports that were drawn for probes is that of the exit's probe, and the others
/// are the pool of the speed test. Where none could be drawn there is neither.
pub fn split_probe_ports(ports: Vec<u16>) -> (r: (Option<u16>, Vec<u16>))
    ensures
        ports@.len() == 0 ==> r.0 is None && r.1@.len() == 0,
        ports@.len() > 0 ==> r.0 == Some(ports@[0]) && r.1@ == ports@.drop_first(),
{
    let mut pool = ports;
    if pool.len() == 0 {
        return (None, pool);
    }
    let first: u16 = pool.remove(0);
    assert(pool@ =~= ports@.drop_first());
    (Some(first), pool)
}

/// A port that was drawn is no port 0; that one stands for none.
pub open spec fn port_set(port: u16) -> Option<u16> {
    if port > 0 {
        Some(port)
    } else {
        None
    }
}

/// The port, where it was drawn.
pub fn drawn_port(port: u16) -> (r: Option<u16>)
    ensures
        r == port_set(port),
{
    if port > 0 {
        Some(port)
    } else {
        None
    }
}

/// Ports that are drawn outside what they may not be are all different, and none is one of the
/// configuration's.
pub proof fn law_drawn_ports_differ(
    c: ConfiguredPorts,
    api: u16,
    update_in: u16,
    subscription: u16,
    probe: u16,
)
    requires
        !taken(c).contains(api),
        !taken(c).push(api).contains(update_in),
        !taken(c).push(api).push(update_in).contains(subscription),
        !taken(c).push(api).push(subscription).push(update_in).contains(probe),
    ensures
        api != update_in,
        api != subscription,
        update_in != subscription,
        probe != api,
        probe != update_in,
        probe != subscription,
        c.control != api,
        c.control != update_in,
        c.control != subscription,
        c.control != probe,
{
    let n = taken(c).len() as int;
    let a = taken(c).push(api);
    let b = a.push(update_in);
    let d = a.push(subscription).push(update_in);
    assert(taken(c)[0] == c.control);
    assert(a[n] == api);
    assert(a[0] == c.control);
    assert(b[n] == api && b[n + 1] == update_in && b[0] == c.control);
    assert(d[n] == api && d[n + 1] == subscription && d[n + 2] == update_in && d[0] == c.control);
}

/// A port that the configuration takes may be drawn for nothing, and one that was drawn may be
/// drawn for nothing after it; nothing else is kept from being drawn.
pub proof fn law_what_may_not_be_drawn(
    c: ConfiguredPorts,
    api_port: u16,
    update_port: u16,
    subscription_port: u16,
    api: PortExclusions,
    update: PortExclusions,
    subscription: PortExclusions,
    probe: PortExclusions,
    p: u16,
)
    requires
        call_ensures(api_port_exclusions, (&c,), api),
        call_ensures(update_in_exclusions, (&c, api_port), update),
        call_ensures(subscription_exclusions, (&c, api_port, update_port), subscription),
        call_ensures(probe_exclusions, (&c, api_port, update_port, subscription_port), probe),
    ensures
        api.excluded@.contains(p) <==> p == c.control || c.http == Some(p) || c.mixed == Some(p),
        update.excluded@.contains(p) <==> api.excluded@.contains(p) || p == api_port,
        subscription.excluded@.contains(p) <==> update.excluded@.contains(p) || p == update_port,
        probe.excluded@.contains(p) <==> subscription.excluded@.contains(p) || p
            == subscription_port,
        api.fallback is None && probe.fallback is None,
        update.fallback is Some && subscription.fallback is Some,
        c.control <= 65531 ==> update.fallback->0 == c.control + 3 && subscription.fallback->0
            == c.control + 4,
{
    let t = taken(c);
    lemma_taken(c, p);
    lemma_pushed(t, api_port, p);
    lemma_pushed(t.push(api_port), update_port, p);
    lemma_pushed(t.push(api_port), subscription_port, p);
    lemma_pushed(t.push(api_port).push(subscription_port), update_port, p);
}

proof fn lemma_pushed(s: Seq<u16>, x: u16, p: u16)
    ensures
        s.push(x).contains(p) <==> s.contains(p) || p == x,
{
    let t = s.push(x);
    if s.contains(p) {
        let k = choose|k: int| 0 <= k < s.len() && s[k] == p;
        assert(t[k] == p);
    }
    if p == x {
        assert(t[s.len() as int] == p);
    }
    if t.contains(p) && p != x {
        let k = choose|k: int| 0 <= k < t.len() && t[k] == p;
        assert(s[k] == p);
    }
}

proof fn lemma_taken(c: ConfiguredPorts, p: u16)
    ensures
        taken(c).contains(p) <==> p == c.control || c.http == Some(p) || c.mixed == Some(p),
{
    let t = taken(c);
    assert(t[0] == c.control);
    let n = port_seq(c.http).len() as int;
    if c.http is Some {
        assert(t[1] == c.http->0);
    }
    if c.mixed is Some {
        assert(t[1 + n] == c.mixed->0);
    }
}

/// The first port that was drawn for probes is that of the exit's probe, and all others are the
/// pool, in their order; and a port counts as drawn exactly where it is not zero.
pub proof fn law_probe_ports_are_all_used(
    ports: Vec<u16>,
    r: (Option<u16>, Vec<u16>),
    i: int,
    port: u16,
    drawn: Option<u16>,
)
    requires
        call_ensures(split_probe_ports, (ports,), r),
        call_ensures(drawn_port, (port,), drawn),
    ensures
        r.0 is Some <==> ports@.len() > 0,
        r.0 is Some ==> r.0->0 == ports@[0] && r.1@.len() == ports@.len() - 1,
        r.0 is None ==> r.1@.len() == 0,
        0 < i < ports@.len() ==> r.1@[i - 1] == ports@[i],
        drawn is Some <==> port != 0,
        drawn is Some ==> drawn->0 == port,
{
}

} // verus!
