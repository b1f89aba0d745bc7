//! Taking over the system's name resolution, and giving it back.

use vstd::prelude::*;

use crate::json::{Json, JsonView};
use crate::platform::Platform;
use crate::runtime::{only_status_differs, same_session, ProxyRuntime};
use crate::status::{ErrorCode, StatusView};
use crate::text::{lemma_occurs_between, occurs_in, opt_view};

verus! {

/// The user's choice about the system's name resolution, where one was made.
pub open spec fn takeover_choice(config: JsonView) -> Option<bool> {
    match config.get("dnsConfig"@) {
        Some(d) => match d.get("takeoverSystemDns"@) {
            Some(v) => v.truth(),
            None => None,
        },
        None => None,
    }
}

/// The user's choice about the system's name resolution, where one was made.
pub fn dns_takeover_enabled(config: &Json) -> (r: Option<bool>)
    ensures
        r == takeover_choice(config@),
{
    match config.get("dnsConfig") {
        Some(d) => match d.get("takeoverSystemDns") {
            Some(v) => v.as_truth(),
            None => None,
        },
        None => None,
    }
}

/// Is the system's name resolution taken over by its settings? That is so on one platform, for a
/// core that takes over all traffic, unless the user declined.
pub fn system_dns_takeover_active(platform: Platform, is_tun: bool, takeover: Option<bool>) -> (r:
    bool)
    ensures
        r == (platform == Platform::Mac && is_tun && takeover != Some(false)),
{
    let declined = match takeover {
        Some(b) => !b,
        None => false,
    };
    platform == Platform::Mac && is_tun && !declined
}

/// How an operation on the system's name resolution ended.
pub enum DnsOperation {
    /// On the platform that has a service for it, the service did it.
    ServiceDone,
    ServiceFailed(String),
    /// The service cannot be used from here.
    ServiceBroken(String),
    /// On the others, which have settings for it: whether the takeover has left its mark.
    Settings { has_marker: bool },
    /// The settings cannot be used from here.
    SettingsBroken,
}

/// The runtime goes on and says that name resolution failed.
pub open spec fn says_dns_failed(before: ProxyRuntime, after: ProxyRuntime, msg: Seq<char>) -> bool {
    &&& after.status@ == (StatusView {
        error: Some(msg),
        error_code: Some(ErrorCode::SystemDnsTakeoverFailed),
        ..before.status@
    })
    &&& after == (ProxyRuntime { status: after.status, ..before })
}

impl ProxyRuntime {
    /// The system's name resolution was to be taken over: was it? A failure of the service is
    /// said.
    pub fn dns_taken_over(&mut self, op: &DnsOperation) -> (r: bool)
        ensures
            match *op {
                DnsOperation::ServiceDone => r && *final(self) == *old(self),
                DnsOperation::ServiceFailed(e) => !r && says_dns_failed(
                    *old(self),
                    *final(self),
                    "Linux 系统 DNS 接管失败："@ + e@,
                ),
                DnsOperation::ServiceBroken(e) => !r && says_dns_failed(
                    *old(self),
                    *final(self),
                    "Linux DNS 控制器锁中毒："@ + e@,
                ),
                DnsOperation::Settings { has_marker } => r == has_marker && *final(self) == *old(
                    self,
                ),
                DnsOperation::SettingsBroken => !r && *final(self) == *old(self),
            },
    {
        match op {
            DnsOperation::ServiceDone => true,
            DnsOperation::ServiceFailed(e) => {
                let msg = "Linux 系统 DNS 接管失败：".to_owned().concat(e.as_str());
                self.set_nonfatal_error(msg.as_str(), ErrorCode::SystemDnsTakeoverFailed);
                false
            },
            DnsOperation::ServiceBroken(e) => {
                let msg = "Linux DNS 控制器锁中毒：".to_owned().concat(e.as_str());
                self.set_nonfatal_error(msg.as_str(), ErrorCode::SystemDnsTakeoverFailed);
                false
            },
            DnsOperation::Settings { has_marker } => *has_marker,
            DnsOperation::SettingsBroken => false,
        }
    }

    /// The takeover was to be repeated after a change of the network, where it was due: was it?
    pub fn dns_reconciled(&mut self, due: bool, op: &DnsOperation) -> (r: bool)
        ensures
            r == (due && (*op is ServiceDone || *op is Settings)),
            match (due, *op) {
                (true, DnsOperation::ServiceFailed(e)) => says_dns_failed(
                    *old(self),
                    *final(self),
                    "Linux 系统 DNS 热切换重放失败："@ + e@,
                ),
                _ => *final(self) == *old(self),
            },
    {
        if !due {
            return false;
        }
        match op {
            DnsOperation::ServiceDone => true,
            DnsOperation::ServiceFailed(e) => {
                let msg = "Linux 系统 DNS 热切换重放失败：".to_owned().concat(e.as_str());
                self.set_nonfatal_error(msg.as_str(), ErrorCode::SystemDnsTakeoverFailed);
                false
            },
            DnsOperation::ServiceBroken(_) => false,
            DnsOperation::Settings { .. } => true,
            DnsOperation::SettingsBroken => false,
        }
    }

    /// The system's memory of names was to be cleared. Only on the platform where it is known to
    /// do harm is a failure said.
    pub fn dns_cache_flushed(&mut self, platform: Platform, flushed: bool)
        ensures
            if platform == Platform::Linux && !flushed {
                says_dns_failed(
                    *old(self),
                    *final(self),
                    "Linux 系统 DNS 缓存刷新失败；旧的失败缓存可能继续影响域名解析"@,
                )
            } else {
                *final(self) == *old(self)
            },
    {
        if platform == Platform::Linux && !flushed {
            self.set_nonfatal_error(
                "Linux 系统 DNS 缓存刷新失败；旧的失败缓存可能继续影响域名解析",
                ErrorCode::SystemDnsTakeoverFailed,
            );
        }
    }
}

/// The system's name resolution was to be given back: was it? With settings it was where no mark
/// of the takeover is left.
pub fn dns_restored(op: &DnsOperation) -> (r: bool)
    ensures
        r == (match *op {
            DnsOperation::ServiceDone => true,
            DnsOperation::Settings { has_marker } => !has_marker,
            _ => false,
        }),
{
    match op {
        DnsOperation::ServiceDone => true,
        DnsOperation::Settings { has_marker } => !*has_marker,
        _ => false,
    }
}

/// The user's choice is what the configuration says under its two keys, and nothing where it says
/// no truth value there. The settings are taken over on the one platform, for a core that takes
/// over all traffic, unless the user declined.
pub proof fn law_when_name_resolution_is_taken_over(
    config: Json,
    choice: Option<bool>,
    platform: Platform,
    is_tun: bool,
    takeover: Option<bool>,
    active: bool,
    dns: JsonView,
    b: bool,
)
    requires
        call_ensures(dns_takeover_enabled, (&config,), choice),
        call_ensures(system_dns_takeover_active, (platform, is_tun, takeover), active),
    ensures
        config@.get("dnsConfig"@) == Some(dns) && dns.get("takeoverSystemDns"@) == Some(
            JsonView::Bool(b),
        ) ==> choice == Some(b),
        config@.get("dnsConfig"@) is None ==> choice is None,
        config@.get("dnsConfig"@) == Some(dns) && dns.get("takeoverSystemDns"@) is None ==> choice
            is None,
        active ==> platform == Platform::Mac && is_tun,
        platform == Platform::Mac && is_tun ==> (active <==> takeover != Some(false)),
{
}

/// A takeover counts as made by the service that made it or by the mark that it left; a failure of
/// the service is said, with its words, and the session goes on.
pub proof fn law_a_takeover_that_fails_is_said(rt: &mut ProxyRuntime, op: DnsOperation, r: bool)
    requires
        call_ensures(ProxyRuntime::dns_taken_over, (rt, &op), r),
    ensures
        r <==> op is ServiceDone || op == (DnsOperation::Settings { has_marker: true }),
        !(op is ServiceFailed || op is ServiceBroken) ==> *final(rt) == *old(rt),
        op matches DnsOperation::ServiceFailed(e) ==> final(rt).status.error is Some && occurs_in(
            final(rt).status.error->0@,
            e@,
        ),
        op matches DnsOperation::ServiceBroken(e) ==> final(rt).status.error is Some && occurs_in(
            final(rt).status.error->0@,
            e@,
        ),
        op is ServiceFailed || op is ServiceBroken ==> {
            &&& final(rt).status.error_code == Some(ErrorCode::SystemDnsTakeoverFailed)
            &&& same_session(old(rt).status, final(rt).status)
            &&& only_status_differs(*old(rt), *final(rt))
        },
{
    assert(final(rt).status@.pid == final(rt).status.pid && old(rt).status@.pid == old(
        rt,
    ).status.pid);
    assert(final(rt).status@.error == opt_view(final(rt).status.error));
    match op {
        DnsOperation::ServiceFailed(e) => {
            lemma_occurs_between(
                "Linux 系统 DNS 接管失败："@ + e@,
                "Linux 系统 DNS 接管失败："@,
                e@,
                Seq::empty(),
            );
        },
        DnsOperation::ServiceBroken(e) => {
            lemma_occurs_between(
                "Linux DNS 控制器锁中毒："@ + e@,
                "Linux DNS 控制器锁中毒："@,
                e@,
                Seq::empty(),
            );
        },
        _ => {},
    }
}

/// Repeating a takeover happens only where it was due, and its failure is said only then; giving
/// name resolution back has happened where no mark of the takeover is left; and clearing the memory
/// of names that fails is said on the one platform.
pub proof fn law_how_name_resolution_is_repeated_and_given_back(
    rt: &mut ProxyRuntime,
    due: bool,
    op: DnsOperation,
    r: bool,
    restored: bool,
    cleared: &mut ProxyRuntime,
    platform: Platform,
    flushed: bool,
)
    requires
        call_ensures(ProxyRuntime::dns_reconciled, (rt, due, &op), r),
        call_ensures(dns_restored, (&op,), restored),
        call_ensures(ProxyRuntime::dns_cache_flushed, (cleared, platform, flushed), ()),
    ensures
        r <==> due && (op is ServiceDone || op is Settings),
        due && op is ServiceFailed ==> {
            &&& final(rt).status.error is Some
            &&& occurs_in(final(rt).status.error->0@, op->ServiceFailed_0@)
            &&& final(rt).status.error_code == Some(ErrorCode::SystemDnsTakeoverFailed)
            &&& same_session(old(rt).status, final(rt).status)
            &&& only_status_differs(*old(rt), *final(rt))
        },
        !(due && op is ServiceFailed) ==> *final(rt) == *old(rt),
        restored <==> op is ServiceDone || op == (DnsOperation::Settings { has_marker: false }),
        platform == Platform::Linux && !flushed ==> {
            &&& final(cleared).status.error is Some
            &&& final(cleared).status.error_code == Some(ErrorCode::SystemDnsTakeoverFailed)
            &&& same_session(old(cleared).status, final(cleared).status)
            &&& only_status_differs(*old(cleared), *final(cleared))
        },
        platform != Platform::Linux || flushed ==> *final(cleared) == *old(cleared),
{
    assert(final(rt).status@.pid == final(rt).status.pid && old(rt).status@.pid == old(
        rt,
    ).status.pid);
    assert(final(rt).status@.error == opt_view(final(rt).status.error));
    assert(final(cleared).status@.pid == final(cleared).status.pid && old(cleared).status@.pid
        == old(cleared).status.pid);
    assert(final(cleared).status@.error == opt_view(final(cleared).status.error));
    if let DnsOperation::ServiceFailed(e) = op {
        lemma_occurs_between(
            "Linux 系统 DNS 热切换重放失败："@ + e@,
            "Linux 系统 DNS 热切换重放失败："@,
            e@,
            Seq::empty(),
        );
    }
}

} // verus!
