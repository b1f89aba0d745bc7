//! The helper that lets a core take over all traffic: whether it is needed, and what the user is
//! asked where it is missing.

use vstd::prelude::*;

use crate::platform::Platform;
use crate::runtime::{failed_status, only_status_differs, shows, ProxyRuntime};
use crate::start_flow::FixedMessages;
use crate::status::{ErrorCode, StartError, StartErrorView};
use crate::text::opt_view;

verus! {

/// What the user answered when asked to install the helper.
#[derive(Clone, Copy, PartialEq, Eq, Structural, Debug)]
pub enum HelperGateDecision {
    Proceed,
    Abort,
}

impl Default for HelperGateDecision {
    fn default() -> (r: Self)
        ensures
            r == HelperGateDecision::Abort,
    {
        HelperGateDecision::Abort
    }
}

/// What is known of the helper.
#[derive(Clone, Copy, PartialEq, Eq, Structural, Debug)]
pub struct HelperStatusSnapshot {
    pub installed: bool,
    pub upgradeable: bool,
}

/// How a start goes on as far as the helper is concerned.
pub enum HelperGateNext {
    /// The start goes on.
    Pass,
    /// Ask the user whether to upgrade the helper, and go on whatever the answer.
    PromptUpgrade,
    /// Ask the user to install the helper.
    PromptInstall,
    /// The start fails.
    Refuse(StartError),
}

/// A core that takes over all traffic is started by the helper, on every platform that has one.
pub open spec fn needs_helper(is_tun: bool, platform: Platform) -> bool {
    is_tun && platform != Platform::Other
}

/// Is the core started by the helper?
pub fn should_start_via_helper(is_tun: bool, platform: Platform) -> (r: bool)
    ensures
        r == needs_helper(is_tun, platform),
{
    is_tun && platform != Platform::Other
}

/// Is the user to be asked whether to upgrade the helper?
pub fn should_prompt_helper_upgrade(
    is_tun: bool,
    platform: Platform,
    status: &HelperStatusSnapshot,
) -> (r: bool)
    ensures
        r == (needs_helper(is_tun, platform) && status.installed && status.upgradeable),
{
    should_start_via_helper(is_tun, platform) && status.installed && status.upgradeable
}

/// Raises a flag. `true` for the one who raised it first.
pub fn claim_once(flag: &mut bool) -> (r: bool)
    ensures
        r == !*old(flag),
        *final(flag),
{
    let first = !*flag;
    *flag = true;
    first
}

/// The start fails with this error, and the runtime says so.
pub open spec fn refuses(
    before: ProxyRuntime,
    after: ProxyRuntime,
    r: HelperGateNext,
    msg: Seq<char>,
    code: ErrorCode,
) -> bool {
    &&& r matches HelperGateNext::Refuse(e)
    &&& e@ == (StartErrorView { message: msg, code: Some(code) })
    &&& after.status@ == failed_status(msg, code)
    &&& after == (ProxyRuntime { status: after.status, ..before })
}

impl ProxyRuntime {
    /// Is the helper missing that this core needs?
    pub fn tun_helper_missing(is_tun: bool, platform: Platform, installed: bool) -> (r: bool)
        ensures
            r == (needs_helper(is_tun, platform) && !installed),
    {
        should_start_via_helper(is_tun, platform) && !installed
    }

    /// A start asks for the helper. Nobody is asked where nobody is there to answer: `interactive`
    /// is false for a start that brings back a core after a crash, and `can_ask` is false where
    /// the interface is not connected. An upgrade is offered once.
    pub fn run_helper_gate(
        &mut self,
        is_tun: bool,
        platform: Platform,
        status: &HelperStatusSnapshot,
        interactive: bool,
        can_ask: bool,
        messages: &FixedMessages,
    ) -> (r: HelperGateNext)
        ensures
            if !needs_helper(is_tun, platform) {
                r is Pass && *final(self) == *old(self)
            } else if status.installed {
                if status.upgradeable && interactive && can_ask && !old(
                    self,
                ).helper_upgrade_prompted {
                    r is PromptUpgrade && *final(self) == (ProxyRuntime {
                        helper_upgrade_prompted: true,
                        ..*old(self)
                    })
                } else {
                    r is Pass && *final(self) == *old(self)
                }
            } else if interactive && can_ask {
                r is PromptInstall && *final(self) == *old(self)
            } else {
                refuses(
                    *old(self),
                    *final(self),
                    r,
                    messages.helper_not_installed@,
                    ErrorCode::HelperNotInstalled,
                )
            },
    {
        if !should_start_via_helper(is_tun, platform) {
            return HelperGateNext::Pass;
        }
        if status.installed {
            if !should_prompt_helper_upgrade(is_tun, platform, status) || !interactive || !can_ask {
                return HelperGateNext::Pass;
            }
            if !claim_once(&mut self.helper_upgrade_prompted) {
                return HelperGateNext::Pass;
            }
            return HelperGateNext::PromptUpgrade;
        }
        if interactive && can_ask {
            return HelperGateNext::PromptInstall;
        }
        self.refuse(messages.helper_not_installed.as_str(), ErrorCode::HelperNotInstalled)
    }

    /// The user was asked to install the helper. Having agreed is not enough: the helper has to be
    /// there.
    pub fn helper_gate_answered(
        &mut self,
        decision: HelperGateDecision,
        still_missing: bool,
        messages: &FixedMessages,
    ) -> (r: HelperGateNext)
        ensures
            if decision == HelperGateDecision::Abort {
                refuses(
                    *old(self),
                    *final(self),
                    r,
                    messages.helper_gate_aborted@,
                    ErrorCode::HelperGateAborted,
                )
            } else if still_missing {
                refuses(
                    *old(self),
                    *final(self),
                    r,
                    messages.helper_not_installed@,
                    ErrorCode::HelperNotInstalled,
                )
            } else {
                r is Pass && *final(self) == *old(self)
            },
    {
        if decision == HelperGateDecision::Abort {
            return self.refuse(
                messages.helper_gate_aborted.as_str(),
                ErrorCode::HelperGateAborted,
            );
        }
        if still_missing {
            return self.refuse(
                messages.helper_not_installed.as_str(),
                ErrorCode::HelperNotInstalled,
            );
        }
        HelperGateNext::Pass
    }

    fn refuse(&mut self, msg: &str, code: ErrorCode) -> (r: HelperGateNext)
        ensures
            refuses(*old(self), *final(self), r, msg@, code),
    {
        self.set_error(msg, code);
        HelperGateNext::Refuse(StartError::coded(msg.to_owned(), code))
    }
}

/// The helper is needed by a core that takes over all traffic, on every platform that has one; it
/// is missing where it is needed and not installed, and an upgrade is offered for one that is
/// installed and can be upgraded.
pub proof fn law_who_needs_the_helper(
    is_tun: bool,
    platform: Platform,
    installed: bool,
    status: HelperStatusSnapshot,
    needed: bool,
    missing: bool,
    prompt: bool,
)
    requires
        call_ensures(should_start_via_helper, (is_tun, platform), needed),
        call_ensures(ProxyRuntime::tun_helper_missing, (is_tun, platform, installed), missing),
        call_ensures(should_prompt_helper_upgrade, (is_tun, platform, &status), prompt),
    ensures
        !is_tun ==> !needed,
        is_tun && (platform == Platform::Mac || platform == Platform::Win || platform
            == Platform::Linux) ==> needed,
        platform == Platform::Other ==> !needed,
        missing <==> needed && !installed,
        prompt <==> needed && status.installed && status.upgradeable,
{
}

/// A flag is raised once: the first to claim it has it, and nobody after.
pub proof fn law_a_flag_is_claimed_once(flag: &mut bool, r: bool, again: &mut bool, q: bool)
    requires
        call_ensures(claim_once, (flag,), r),
        *old(again) == *final(flag),
        call_ensures(claim_once, (again,), q),
    ensures
        r <==> !*old(flag),
        !q,
{
}

/// A start goes on past the helper exactly where it needs none or has one and nobody is to be
/// asked; somebody is asked only where somebody can answer, to install where it is missing and to
/// upgrade once where it is there. Where it is missing and nobody can answer the start fails, and
/// that is said.
pub proof fn law_how_a_start_passes_the_helper(
    rt: &mut ProxyRuntime,
    is_tun: bool,
    platform: Platform,
    status: HelperStatusSnapshot,
    interactive: bool,
    can_ask: bool,
    messages: FixedMessages,
    r: HelperGateNext,
    needed: bool,
)
    requires
        call_ensures(should_start_via_helper, (is_tun, platform), needed),
        call_ensures(
            ProxyRuntime::run_helper_gate,
            (rt, is_tun, platform, &status, interactive, can_ask, &messages),
            r,
        ),
    ensures
        r is PromptInstall <==> needed && !status.installed && interactive && can_ask,
        r is Refuse <==> needed && !status.installed && !(interactive && can_ask),
        r is PromptUpgrade <==> needed && status.installed && status.upgradeable && interactive
            && can_ask && !old(rt).helper_upgrade_prompted,
        r is PromptUpgrade ==> *final(rt) == (ProxyRuntime {
            helper_upgrade_prompted: true,
            ..*old(rt)
        }),
        r is Pass || r is PromptInstall ==> *final(rt) == *old(rt),
        r matches HelperGateNext::Refuse(e) ==> {
            &&& e.message@ == messages.helper_not_installed@
            &&& e.code == Some(ErrorCode::HelperNotInstalled)
            &&& shows(*final(rt), messages.helper_not_installed@, ErrorCode::HelperNotInstalled)
            &&& !final(rt).status.running
            &&& only_status_differs(*old(rt), *final(rt))
        },
{
    assert(final(rt).status@.running == final(rt).status.running);
    assert(final(rt).status@.error == opt_view(final(rt).status.error));
}

/// The answer counts: declining ends the start as declined, and agreeing lets it go on exactly
/// where the helper is there afterwards.
pub proof fn law_what_the_user_answers_counts(
    rt: &mut ProxyRuntime,
    decision: HelperGateDecision,
    still_missing: bool,
    messages: FixedMessages,
    r: HelperGateNext,
)
    requires
        call_ensures(
            ProxyRuntime::helper_gate_answered,
            (rt, decision, still_missing, &messages),
            r,
        ),
    ensures
        r is Pass <==> decision == HelperGateDecision::Proceed && !still_missing,
        r is Pass || r is Refuse,
        r is Pass ==> *final(rt) == *old(rt),
        r matches HelperGateNext::Refuse(e) ==> {
            let declined = decision == HelperGateDecision::Abort;
            &&& declined ==> e.code == Some(ErrorCode::HelperGateAborted) && e.message@
                == messages.helper_gate_aborted@
            &&& !declined ==> e.code == Some(ErrorCode::HelperNotInstalled) && e.message@
                == messages.helper_not_installed@
            &&& shows(*final(rt), e.message@, e.code->0)
            &&& !final(rt).status.running
            &&& only_status_differs(*old(rt), *final(rt))
        },
{
    assert(final(rt).status@.running == final(rt).status.running);
    assert(final(rt).status@.error == opt_view(final(rt).status.error));
}

} // verus!
