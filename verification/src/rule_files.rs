//! The files that hold the user's own rules for the core, and where the core finds its files.

use vstd::prelude::*;

use crate::core_log::log_axes_from_config;
use crate::json::Json;
use crate::platform::{cronet_available, platform_tag, tag_of_os};
use crate::ports::{drawn_port, port_set};
use crate::runtime::{join, joined, ProxyRuntime};
use crate::text::{opt_view, same_text, text_in_list, views};

verus! {

/// Is a file to be written? Not where it holds the content already.
pub fn rule_file_needs_writing(current: Option<&str>, content: &str) -> (r: bool)
    ensures
        r == !(current matches Some(c) && c@ == content@),
{
    match current {
        Some(c) => !same_text(c, content),
        None => true,
    }
}

/// The files that belong to rules which are no longer there. `is_rule_file` says of each name that
/// it is one that such a file goes by.
pub open spec fn stale_names(
    names: Seq<String>,
    is_rule_file: Seq<bool>,
    expected: Seq<Seq<char>>,
) -> Seq<Seq<char>>
    decreases names.len(),
{
    if names.len() == 0 || names.len() != is_rule_file.len() {
        Seq::empty()
    } else {
        let before = stale_names(names.drop_last(), is_rule_file.drop_last(), expected);
        if is_rule_file.last() && !expected.contains(names.last()@) {
            before.push(names.last()@)
        } else {
            before
        }
    }
}

/// The files that are to be removed.
pub fn stale_rule_files(names: &Vec<String>, is_rule_file: &Vec<bool>, expected: &Vec<String>) -> (r:
    Vec<String>)
    requires
        names@.len() == is_rule_file@.len(),
    ensures
        views(r@) == stale_names(names@, is_rule_file@, views(expected@)),
{
    let mut out: Vec<String> = Vec::new();
    assert(views(out@) =~= Seq::empty());
    let mut i: usize = 0;
    while i < names.len()
        invariant
            i <= names@.len() == is_rule_file@.len(),
            views(out@) == stale_names(
                names@.take(i as int),
                is_rule_file@.take(i as int),
                views(expected@),
            ),
        decreases names@.len() - i,
    {
        assert(names@.take(i + 1).drop_last() =~= names@.take(i as int));
        assert(is_rule_file@.take(i + 1).drop_last() =~= is_rule_file@.take(i as int));
        let ghost before = out@;
        if is_rule_file[i] && !text_in_list(expected, names[i].as_str()) {
            out.push(names[i].clone());
            assert(views(out@) =~= views(before).push(names@[i as int]@));
        }
        i += 1;
    }
    assert(names@.take(i as int) =~= names@);
    assert(is_rule_file@.take(i as int) =~= is_rule_file@);
    out
}

/// What the configuration of a core is generated with, besides the user's configuration.
pub struct GenerateConfigDeps {
    pub platform: String,
    pub arch: String,
    pub race_server_port: Option<u16>,
    pub race_upstream_ips: Vec<String>,
    pub race_upstream_ports: Vec<u16>,
    pub probe_direct_port: Option<u16>,
    pub probe_proxy_port: Option<u16>,
    pub update_in_port: Option<u16>,
    pub subscription_update_in_port: Option<u16>,
    pub probe_pool_ports: Vec<u16>,
    pub lan_resolver_for_dns: Option<String>,
    pub has_cronet: bool,
    pub cronet_copy_failed: bool,
    pub has_management_api: bool,
    pub privacy_mode: bool,
    pub log_level: Option<String>,
    pub disable_log_file: bool,
    pub dashboard_serve_dir: Option<String>,
    pub tailscale_api_port: u16,
    pub cache_path: String,
    pub log_file_path: Option<String>,
    pub runtime_rules_dir: String,
    pub rule_resources_path: String,
    pub custom_rules_dir: String,
    pub tailscale_state_dir_prefix: String,
    pub own_lan_cidrs: Vec<String>,
}

/// The machine that a core is started on.
pub struct Machine {
    /// The operating system, as the platform names it.
    pub os: String,
    pub arch: String,
    pub cronet_lib_exists: bool,
    pub own_lan_cidrs: Vec<String>,
    pub dashboard_serve_dir: Option<String>,
}

/// The server beside the core that asks several resolvers at once, where one runs.
pub struct RaceServer {
    pub port: Option<u16>,
    pub upstream_ips: Vec<String>,
    pub upstream_ports: Vec<u16>,
}

/// The ports that were drawn for a session.
pub struct DrawnPorts {
    pub api_port: u16,
    /// Zero where there is none.
    pub update_in_port: u16,
    /// Zero where there is none.
    pub subscription_update_in_port: u16,
    pub probe_proxy_port: Option<u16>,
    pub pool_ports: Vec<u16>,
}

/// Where rule resources are kept.
pub fn rule_resource_dir(separator: char, data_dir: &str) -> (r: String)
    ensures
        r@ == joined(separator, data_dir@, "rule-resource"@),
{
    join(separator, data_dir, "rule-resource")
}

impl ProxyRuntime {
    /// What the configuration of a core is generated with.
    pub fn generate_deps(
        &self,
        machine: Machine,
        race: RaceServer,
        ports: DrawnPorts,
        privacy_mode: bool,
        config: &Json,
    ) -> (r: GenerateConfigDeps)
        ensures
            r.platform@ == tag_of_os(machine.os@),
            r.arch == machine.arch,
            r.race_server_port == race.port,
            r.race_upstream_ips == race.upstream_ips,
            r.race_upstream_ports == race.upstream_ports,
            r.probe_direct_port is None,
            r.probe_proxy_port == ports.probe_proxy_port,
            r.update_in_port == port_set(ports.update_in_port),
            r.subscription_update_in_port == port_set(ports.subscription_update_in_port),
            r.probe_pool_ports == ports.pool_ports,
            r.lan_resolver_for_dns is None,
            r.has_cronet == (machine.cronet_lib_exists || tag_of_os(machine.os@) == "darwin"@),
            !r.cronet_copy_failed,
            r.has_management_api,
            r.privacy_mode == privacy_mode,
            opt_view(r.log_level) == config@.text_at("logLevel"@),
            r.disable_log_file == (match config@.get("disableLogFile"@) {
                Some(v) => v.truth() == Some(true),
                None => false,
            }),
            r.dashboard_serve_dir == machine.dashboard_serve_dir,
            r.tailscale_api_port == ports.api_port,
            r.cache_path@ == joined(self.separator, self.data_dir@, "cache.db"@),
            r.log_file_path is None,
            r.runtime_rules_dir@ == joined(self.separator, self.data_dir@, "rules"@),
            r.rule_resources_path@ == joined(self.separator, self.data_dir@, "rule-resource"@),
            r.custom_rules_dir@ == joined(self.separator, self.data_dir@, "custom-rules"@),
            r.tailscale_state_dir_prefix@ == joined(self.separator, self.data_dir@, "tailscale"@),
            r.own_lan_cidrs == machine.own_lan_cidrs,
    {
        let dir = self.data_dir.as_str();
        let (log_level, disable_log_file) = log_axes_from_config(config);
        let platform = platform_tag(machine.os.as_str());
        let has_cronet = cronet_available(machine.cronet_lib_exists, platform.as_str());
        GenerateConfigDeps {
            platform,
            arch: machine.arch,
            race_server_port: race.port,
            race_upstream_ips: race.upstream_ips,
            race_upstream_ports: race.upstream_ports,
            probe_direct_port: None,
            probe_proxy_port: ports.probe_proxy_port,
            update_in_port: drawn_port(ports.update_in_port),
            subscription_update_in_port: drawn_port(ports.subscription_update_in_port),
            probe_pool_ports: ports.pool_ports,
            lan_resolver_for_dns: None,
            has_cronet,
            cronet_copy_failed: false,
            has_management_api: true,
            privacy_mode,
            log_level,
            disable_log_file,
            dashboard_serve_dir: machine.dashboard_serve_dir,
            tailscale_api_port: ports.api_port,
            cache_path: join(self.separator, dir, "cache.db"),
            log_file_path: None,
            runtime_rules_dir: join(self.separator, dir, "rules"),
            rule_resources_path: rule_resource_dir(self.separator, dir),
            custom_rules_dir: self.custom_rules_dir(),
            tailscale_state_dir_prefix: join(self.separator, dir, "tailscale"),
            own_lan_cidrs: machine.own_lan_cidrs,
        }
    }

    /// Must the user's own rules stand in the core's configuration itself?
    pub fn custom_rule_files_degraded(&self) -> (r: bool)
        ensures
            r == self.custom_rule_files_degraded,
    {
        self.custom_rule_files_degraded
    }

    /// The rule files are being written: none has failed yet.
    pub fn rule_files_begin(&mut self)
        ensures
            *final(self) == (ProxyRuntime { custom_rule_files_degraded: false, ..*old(self) }),
    {
        self.custom_rule_files_degraded = false;
    }

    /// A rule file, or their directory, could not be written: until all can be, the rules stand in
    /// the core's configuration itself.
    pub fn rule_files_failed(&mut self)
        ensures
            *final(self) == (ProxyRuntime { custom_rule_files_degraded: true, ..*old(self) }),
    {
        self.custom_rule_files_degraded = true;
    }
}

/// A file is written exactly where it does not hold the content already.
pub proof fn law_a_file_is_written_where_it_differs(current: Option<&str>, content: &str, r: bool)
    requires
        call_ensures(rule_file_needs_writing, (current, content), r),
    ensures
        current is None ==> r,
        current matches Some(c) ==> (r <==> c@ != content@),
{
}

/// How many of the first `n` names are those of rule files that are not expected.
pub open spec fn files_to_remove(
    names: Seq<String>,
    is_rule_file: Seq<bool>,
    expected: Seq<Seq<char>>,
    n: int,
) -> nat
    decreases n,
{
    if n <= 0 || n > names.len() {
        0
    } else {
        files_to_remove(names, is_rule_file, expected, n - 1) + (if is_rule_file[n - 1]
            && !expected.contains(names[n - 1]@) {
            1nat
        } else {
            0nat
        })
    }
}

/// Every rule file that is not expected is removed, in the order of the names, and no other file is.
pub proof fn law_every_stale_file_is_removed(
    names: Vec<String>,
    is_rule_file: Vec<bool>,
    expected: Vec<String>,
    r: Vec<String>,
    i: int,
)
    requires
        names@.len() == is_rule_file@.len(),
        call_ensures(stale_rule_files, (&names, &is_rule_file, &expected), r),
    ensures
        r@.len() == files_to_remove(
            names@,
            is_rule_file@,
            views(expected@),
            names@.len() as int,
        ),
        0 <= i < names@.len() && is_rule_file@[i] && !views(expected@).contains(names@[i]@) ==> {
            let at = files_to_remove(names@, is_rule_file@, views(expected@), i) as int;
            at < r@.len() && r@[at]@ == names@[i]@
        },
{
    let e = views(expected@);
    lemma_stale_places(names@, is_rule_file@, e, i);
    let v = views(r@);
    assert(v.len() == r@.len());
    let at = files_to_remove(names@, is_rule_file@, e, i) as int;
    if at < v.len() {
        assert(v[at] == r@[at]@);
    }
}

proof fn lemma_stale_places(
    names: Seq<String>,
    is_rule_file: Seq<bool>,
    expected: Seq<Seq<char>>,
    i: int,
)
    requires
        names.len() == is_rule_file.len(),
    ensures
        stale_names(names, is_rule_file, expected).len() == files_to_remove(
            names,
            is_rule_file,
            expected,
            names.len() as int,
        ),
        0 <= i < names.len() && is_rule_file[i] && !expected.contains(names[i]@) ==> {
            let at = files_to_remove(names, is_rule_file, expected, i) as int;
            at < stale_names(names, is_rule_file, expected).len() && stale_names(
                names,
                is_rule_file,
                expected,
            )[at] == names[i]@
        },
    decreases names.len(),
{
    if names.len() > 0 {
        let front = names.drop_last();
        let flags = is_rule_file.drop_last();
        lemma_stale_places(front, flags, expected, i);
        lemma_files_front(names, is_rule_file, expected, names.len() - 1);
        if 0 <= i < front.len() {
            lemma_files_front(names, is_rule_file, expected, i);
            assert(front[i] == names[i] && flags[i] == is_rule_file[i]);
        }
    }
}

proof fn lemma_files_front(
    names: Seq<String>,
    is_rule_file: Seq<bool>,
    expected: Seq<Seq<char>>,
    n: int,
)
    requires
        names.len() > 0,
        names.len() == is_rule_file.len(),
        0 <= n <= names.len() - 1,
    ensures
        files_to_remove(names.drop_last(), is_rule_file.drop_last(), expected, n)
            == files_to_remove(names, is_rule_file, expected, n),
    decreases n,
{
    if n > 0 {
        lemma_files_front(names, is_rule_file, expected, n - 1);
        assert(names.drop_last()[n - 1] == names[n - 1]);
        assert(is_rule_file.drop_last()[n - 1] == is_rule_file[n - 1]);
    }
}

/// A configuration is generated for this machine, with the session's own ports, each in its own
/// place and none where it was not drawn, with the log settings that the configuration names, and
/// with the runtime's own directories.
pub proof fn law_a_configuration_is_generated_for_its_session(
    rt: ProxyRuntime,
    machine: Machine,
    race: RaceServer,
    ports: DrawnPorts,
    privacy: bool,
    config: Json,
    r: GenerateConfigDeps,
    os: &str,
    tag: String,
    axes: (Option<String>, bool),
    update: Option<u16>,
    subscription: Option<u16>,
)
    requires
        call_ensures(
            ProxyRuntime::generate_deps,
            (&rt, machine, race, ports, privacy, &config),
            r,
        ),
        os@ == machine.os@,
        call_ensures(platform_tag, (os,), tag),
        call_ensures(log_axes_from_config, (&config,), axes),
        call_ensures(drawn_port, (ports.update_in_port,), update),
        call_ensures(drawn_port, (ports.subscription_update_in_port,), subscription),
    ensures
        r.platform@ == tag@ && r.arch@ == machine.arch@,
        r.update_in_port == update && r.subscription_update_in_port == subscription,
        r.tailscale_api_port == ports.api_port,
        r.probe_proxy_port == ports.probe_proxy_port,
        r.probe_pool_ports@ == ports.pool_ports@,
        r.race_server_port == race.port,
        r.race_upstream_ips@ == race.upstream_ips@,
        r.race_upstream_ports@ == race.upstream_ports@,
        r.privacy_mode == privacy,
        r.disable_log_file == axes.1,
        r.log_level is Some <==> axes.0 is Some,
        r.log_level is Some ==> r.log_level->0@ == axes.0->0@,
        machine.cronet_lib_exists ==> r.has_cronet,
        tag@ == "darwin"@ ==> r.has_cronet,
        r.has_cronet ==> machine.cronet_lib_exists || tag@ == "darwin"@,
        r.own_lan_cidrs@ == machine.own_lan_cidrs@,
        r.dashboard_serve_dir == machine.dashboard_serve_dir,
        r.has_management_api && !r.cronet_copy_failed,
        r.probe_direct_port is None && r.lan_resolver_for_dns is None && r.log_file_path is None,
{
    assert(opt_view(axes.0) == (match axes.0 {
        Some(m) => Some(m@),
        None => None,
    }));
    assert(opt_view(r.log_level) == (match r.log_level {
        Some(m) => Some(m@),
        None => None,
    }));
}

/// Every file of a session stands in the runtime's directory under its own name.
pub proof fn law_the_files_of_a_session(
    rt: ProxyRuntime,
    machine: Machine,
    race: RaceServer,
    ports: DrawnPorts,
    privacy: bool,
    config: Json,
    r: GenerateConfigDeps,
    dir: &str,
    cache: String,
    rules: String,
    resources: String,
    own_rules: String,
    states: String,
    resource_dir: String,
)
    requires
        call_ensures(
            ProxyRuntime::generate_deps,
            (&rt, machine, race, ports, privacy, &config),
            r,
        ),
        dir@ == rt.data_dir@,
        call_ensures(join, (rt.separator, dir, "cache.db"), cache),
        call_ensures(join, (rt.separator, dir, "rules"), rules),
        call_ensures(join, (rt.separator, dir, "rule-resource"), resources),
        call_ensures(ProxyRuntime::custom_rules_dir, (&rt,), own_rules),
        call_ensures(join, (rt.separator, dir, "tailscale"), states),
        call_ensures(rule_resource_dir, (rt.separator, dir), resource_dir),
    ensures
        r.cache_path@ == cache@,
        r.runtime_rules_dir@ == rules@,
        r.rule_resources_path@ == resources@,
        resource_dir@ == resources@,
        r.custom_rules_dir@ == own_rules@,
        r.tailscale_state_dir_prefix@ == states@,
{
}

/// Whether rules stand in the configuration itself is whether a file could not be written since
/// writing began last.
pub proof fn law_a_failed_file_is_remembered(
    begun: &mut ProxyRuntime,
    failed: &mut ProxyRuntime,
    a: bool,
    b: bool,
)
    requires
        call_ensures(ProxyRuntime::rule_files_begin, (begun,), ()),
        call_ensures(ProxyRuntime::rule_files_failed, (failed,), ()),
        call_ensures(ProxyRuntime::custom_rule_files_degraded, (final(begun),), a),
        call_ensures(ProxyRuntime::custom_rule_files_degraded, (final(failed),), b),
    ensures
        !a,
        b,
        final(begun).status == old(begun).status && final(begun).current_config == old(
            begun,
        ).current_config && final(begun).generation == old(begun).generation,
        final(failed).status == old(failed).status && final(failed).current_config == old(
            failed,
        ).current_config && final(failed).generation == old(failed).generation,
{
}

} // verus!
