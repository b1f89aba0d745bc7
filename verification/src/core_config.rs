//! What the runtime reads of a configuration that was generated for the core.

use vstd::prelude::*;

use crate::text::same_text;

verus! {

/// The tag of the outbound that sends traffic without a proxy.
pub const DIRECT_TAG: &'static str = "direct";

/// The tag of the selector that holds the global exit.
pub const PROXY_SELECTOR_TAG: &'static str = "proxy-selector";

/// An outbound of the core.
pub struct Outbound {
    pub tag: String,
    /// Its type.
    pub kind: String,
    /// The member that a selector begins with.
    pub default_member: Option<String>,
}

/// A generated configuration.
pub struct CoreConfig {
    pub outbounds: Vec<Outbound>,
    /// The tags of the endpoints, where there are any.
    pub endpoint_tags: Option<Vec<String>>,
    /// Where traffic goes that no rule catches.
    pub final_outbound: Option<String>,
    /// The tags of the rule sets that are defined.
    pub rule_set_tags: Vec<String>,
}

/// An outbound of the kind whose engines the core creates one by one.
pub open spec fn is_naive(o: Outbound) -> bool {
    o.kind@ == "naive"@
}

/// How many outbounds are of that kind.
pub open spec fn naive_count(c: CoreConfig) -> nat {
    c.outbounds@.filter(|o: Outbound| is_naive(o)).len()
}

/// How many entries the core has to read: outbounds and endpoints.
pub open spec fn parse_units(c: CoreConfig) -> nat {
    c.outbounds@.len() + (match c.endpoint_tags {
        Some(e) => e@.len(),
        None => 0,
    })
}

/// How many outbounds are of the kind whose engines the core creates one by one.
pub fn main_core_naive_count(config: &CoreConfig) -> (r: usize)
    ensures
        r == naive_count(*config),
        r <= config.outbounds@.len(),
{
    let ghost p = |o: Outbound| is_naive(o);
    let mut n: usize = 0;
    let mut i: usize = 0;
    while i < config.outbounds.len()
        invariant
            i <= config.outbounds@.len(),
            n <= i,
            p == (|o: Outbound| is_naive(o)),
            n == config.outbounds@.take(i as int).filter(p).len(),
        decreases config.outbounds@.len() - i,
    {
        proof {
            let t = config.outbounds@.take(i + 1);
            assert(t.drop_last() =~= config.outbounds@.take(i as int));
            reveal(Seq::filter);
        }
        if same_text(config.outbounds[i].kind.as_str(), "naive") {
            n += 1;
        }
        i += 1;
    }
    assert(config.outbounds@.take(i as int) =~= config.outbounds@);
    n
}

/// How many entries the core has to read.
pub fn main_core_parse_unit_count(config: &CoreConfig) -> (r: usize)
    requires
        parse_units(*config) <= usize::MAX,
    ensures
        r == parse_units(*config),
{
    match &config.endpoint_tags {
        Some(e) => config.outbounds.len() + e.len(),
        None => config.outbounds.len(),
    }
}

/// How many of the first `n` outbounds are of the kind whose engines are created one by one.
pub open spec fn naive_among(outbounds: Seq<Outbound>, n: int) -> nat
    decreases n,
{
    if n <= 0 || n > outbounds.len() {
        0
    } else {
        naive_among(outbounds, n - 1) + (if outbounds[n - 1].kind@ == "naive"@ {
            1nat
        } else {
            0nat
        })
    }
}

/// Every outbound of that kind counts, each once, and everything that the core reads does.
pub proof fn law_everything_is_counted_once(config: CoreConfig, naive: usize, units: usize)
    requires
        call_ensures(main_core_naive_count, (&config,), naive),
        config.outbounds@.len() + (if config.endpoint_tags is Some {
            config.endpoint_tags->0@.len()
        } else {
            0
        }) <= usize::MAX,
        call_ensures(main_core_parse_unit_count, (&config,), units),
    ensures
        naive == naive_among(config.outbounds@, config.outbounds@.len() as int),
        config.endpoint_tags matches Some(e) ==> units == config.outbounds@.len() + e@.len(),
        config.endpoint_tags is None ==> units == config.outbounds@.len(),
{
    lemma_naive_counted(config.outbounds@);
}

proof fn lemma_naive_counted(outbounds: Seq<Outbound>)
    ensures
        outbounds.filter(|o: Outbound| is_naive(o)).len() == naive_among(
            outbounds,
            outbounds.len() as int,
        ),
    decreases outbounds.len(),
{
    reveal(Seq::filter);
    if outbounds.len() > 0 {
        lemma_naive_counted(outbounds.drop_last());
        lemma_naive_front(outbounds, outbounds.len() - 1);
    }
}

proof fn lemma_naive_front(outbounds: Seq<Outbound>, n: int)
    requires
        outbounds.len() > 0,
        0 <= n <= outbounds.len() - 1,
    ensures
        naive_among(outbounds.drop_last(), n) == naive_among(outbounds, n),
    decreases n,
{
    if n > 0 {
        lemma_naive_front(outbounds, n - 1);
        assert(outbounds.drop_last()[n - 1] == outbounds[n - 1]);
    }
}

} // verus!
