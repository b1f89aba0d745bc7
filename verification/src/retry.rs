//! How often and after how long a failed start is tried again, and how long a core may take.

use vstd::arithmetic::power2::{lemma2_to64, lemma_pow2_strictly_increases, lemma_pow2_unfold, pow2};
use vstd::prelude::*;

use crate::text::{
    contains_text, decimal, decimal_text, lemma_occurs_between, lowercase, lowercase_of, occurs_at,
    occurs_in,
};

verus! {

/// The least time that a core is given to come up.
pub const CORE_READY_TIMEOUT_FLOOR_MS: u64 = 12000;

/// The time that a core needs before its configuration counts.
pub const MAIN_CORE_STARTUP_FIXED_MS: u64 = 4000;

/// The pause between two looks at a core that is coming up.
pub const CORE_READY_POLL_MS: u64 = 50;

/// How often a start is tried again, and after how long.
#[derive(Clone, Copy, PartialEq, Eq, Structural, Debug)]
pub struct StartRetryBudget {
    pub max_retries: u32,
    pub delay_ms: u64,
    pub exponential_backoff: bool,
}

/// The budget of a start: many even steps where the core takes over all traffic and a node uses
/// an interface of the system, which may take long to appear, and few growing ones otherwise.
/// `uses_system_interface` says it of each node.
pub fn resolve_start_retry_budget(
    is_tun: bool,
    uses_system_interface: &Vec<bool>,
    platform_supports_it: bool,
) -> (r: StartRetryBudget)
    ensures
        r == (if is_tun && platform_supports_it && uses_system_interface@.contains(true) {
            StartRetryBudget { max_retries: 10, delay_ms: 3000, exponential_backoff: false }
        } else {
            StartRetryBudget { max_retries: 2, delay_ms: 2000, exponential_backoff: true }
        }),
{
    let mut any = false;
    let mut i: usize = 0;
    while i < uses_system_interface.len()
        invariant
            i <= uses_system_interface@.len(),
            any == uses_system_interface@.take(i as int).contains(true),
        decreases uses_system_interface@.len() - i,
    {
        proof {
            let t = uses_system_interface@.take(i + 1);
            assert(t[i as int] == uses_system_interface@[i as int]);
            assert forall|k: int| 0 <= k < i implies t[k] == uses_system_interface@.take(i as int)[k] by {}
            if any {
                let k = choose|k: int|
                    0 <= k < i && uses_system_interface@.take(i as int)[k] == true;
                assert(t[k]);
            }
            if t.contains(true) && !uses_system_interface@[i as int] {
                let k = choose|k: int| 0 <= k < t.len() && t[k] == true;
                assert(uses_system_interface@.take(i as int)[k]);
            }
        }
        if uses_system_interface[i] {
            any = true;
        }
        i += 1;
    }
    assert(uses_system_interface@.take(i as int) =~= uses_system_interface@);
    if is_tun && platform_supports_it && any {
        StartRetryBudget { max_retries: 10, delay_ms: 3000, exponential_backoff: false }
    } else {
        StartRetryBudget { max_retries: 2, delay_ms: 2000, exponential_backoff: true }
    }
}

/// How often the pause doubles before the attempt behind `attempt`.
pub open spec fn doublings(attempt: u32) -> nat {
    if attempt <= 1 {
        0
    } else if attempt > 17 {
        16
    } else {
        (attempt - 1) as nat
    }
}

/// The pause before the attempt behind `attempt`.
pub open spec fn backoff_ms(budget: StartRetryBudget, attempt: u32) -> nat {
    let full = budget.delay_ms * pow2(doublings(attempt));
    if !budget.exponential_backoff {
        budget.delay_ms as nat
    } else if full > u64::MAX {
        u64::MAX as nat
    } else {
        full as nat
    }
}

/// The pause before the attempt behind `attempt`.
pub fn start_backoff_delay_ms(budget: &StartRetryBudget, attempt: u32) -> (r: u64)
    ensures
        r == backoff_ms(*budget, attempt),
{
    if !budget.exponential_backoff {
        return budget.delay_ms;
    }
    let mut left: u32 = if attempt <= 1 {
        0
    } else if attempt > 17 {
        16
    } else {
        attempt - 1
    };
    let mut factor: u64 = 1;
    let ghost total = doublings(attempt);
    proof {
        lemma2_to64();
    }
    while left > 0
        invariant
            left <= total <= 16,
            factor == pow2((total - left) as nat),
        decreases left,
    {
        proof {
            lemma_pow2_unfold((total - left + 1) as nat);
            lemma2_to64();
            if total - left < 16 {
                lemma_pow2_strictly_increases((total - left) as nat, 16);
            }
        }
        factor = factor * 2;
        left -= 1;
    }
    match budget.delay_ms.checked_mul(factor) {
        Some(d) => d,
        None => u64::MAX,
    }
}

/// A later attempt is never preceded by a shorter pause.
pub proof fn law_backoff_never_shrinks(budget: StartRetryBudget, earlier: u32, later: u32)
    requires
        earlier <= later,
    ensures
        backoff_ms(budget, earlier) <= backoff_ms(budget, later),
        budget.delay_ms <= backoff_ms(budget, earlier),
{
    let a = doublings(earlier);
    let b = doublings(later);
    if a < b {
        lemma_pow2_strictly_increases(a, b);
    }
    lemma2_to64();
    if 0 < a {
        lemma_pow2_strictly_increases(0, a);
    }
    assert(budget.delay_ms * pow2(a) <= budget.delay_ms * pow2(b)) by (nonlinear_arith)
        requires
            pow2(a) <= pow2(b),
    ;
    assert(budget.delay_ms <= budget.delay_ms * pow2(a)) by (nonlinear_arith)
        requires
            1 <= pow2(a),
    ;
}

/// A message, in lower case, that tells of something that another attempt does not mend.
pub open spec fn names_lasting_failure(lower: Seq<char>) -> bool {
    ||| occurs_in(lower, "找不到"@)
    ||| occurs_in(lower, "权限"@)
    ||| occurs_in(lower, "permission"@)
    ||| occurs_in(lower, "enoent"@)
    ||| occurs_in(lower, "eacces"@)
    ||| occurs_in(lower, "eperm"@)
    ||| occurs_in(lower, "配置文件格式错误"@)
    ||| occurs_in(lower, "invalid config"@)
}

/// Does a message, in lower case, tell of something that another attempt does not mend?
pub fn lasting_failure(lower: &str) -> (r: bool)
    ensures
        r == names_lasting_failure(lower@),
{
    contains_text(lower, "找不到") || contains_text(lower, "权限") || contains_text(
        lower,
        "permission",
    ) || contains_text(lower, "enoent") || contains_text(lower, "eacces") || contains_text(
        lower,
        "eperm",
    ) || contains_text(lower, "配置文件格式错误") || contains_text(lower, "invalid config")
}

/// May a start that failed with this message be tried again?
pub fn is_retryable_start_error(message: &str) -> (r: bool)
    ensures
        r == !names_lasting_failure(lowercase_of(message@)),
{
    let lower = lowercase(message);
    !lasting_failure(lower.as_str())
}

/// `a * b`, or the greatest number of 64 bits where it does not fit.
pub open spec fn capped_product(a: nat, b: nat) -> nat {
    if a * b > u64::MAX {
        u64::MAX as nat
    } else {
        a * b
    }
}

/// What is said of a core that did not come up within its budget. It names what the budget was
/// computed from: the entries of the configuration, and the engines among them, each of which
/// costs `per_naive_ms` of the estimated `estimate_ms`.
pub open spec fn timeout_text(
    api_port: u16,
    units: nat,
    naive: nat,
    budget_ms: u64,
    estimate_ms: u64,
    per_naive_ms: u64,
) -> Seq<char> {
    let head = "sing-box 起核超时：管理 API "@ + decimal(api_port as nat) + " 在 "@ + decimal(
        budget_ms as nat,
    ) + "ms 内未就绪。本次下发 "@ + decimal(units);
    let floor = decimal(CORE_READY_TIMEOUT_FLOOR_MS as nat);
    if naive == 0 {
        head + " 个出站/端点、其中 naive 出站 0 个 ⇒ 就绪门就是最低的 "@ + floor
            + "ms，与订阅规模无关。请转查端口占用、TUN 网卡/提权，以及内核日志里的启动错误。"@
    } else {
        head + " 个出站/端点，其中 "@ + decimal(naive)
            + " 个是 naive —— 每个 naive 出站都是一个独立 Cronet Engine，内核在绑定入站之前逐个串行创建，估算本次起核需 "@
            + decimal(estimate_ms as nat) + "ms（其中 naive 一项就占 "@ + decimal(
            capped_product(naive, per_naive_ms as nat),
        ) + "ms），故就绪门已按本次规模从 "@ + floor + "ms 放宽到 "@ + decimal(budget_ms as nat)
            + "ms，仍未等到。naive 节点每少一个省约 "@ + decimal(per_naive_ms as nat)
            + "ms：请减少本次启用的 naive 节点数、或改选其他协议的节点后重试；若 naive 节点本就不多，再转查端口占用、TUN 网卡/提权与内核日志。"@
    }
}

/// What is said of a core that did not come up within its budget.
pub fn main_core_ready_timeout_message(
    api_port: u16,
    units: usize,
    naive: usize,
    budget_ms: u64,
    estimate_ms: u64,
    per_naive_ms: u64,
) -> (r: String)
    ensures
        r@ == timeout_text(
            api_port,
            units as nat,
            naive as nat,
            budget_ms,
            estimate_ms,
            per_naive_ms,
        ),
{
    let head = "sing-box 起核超时：管理 API ".to_owned().concat(
        decimal_text(api_port as u64).as_str(),
    ).concat(" 在 ").concat(decimal_text(budget_ms).as_str()).concat("ms 内未就绪。本次下发 ").concat(
        decimal_text(units as u64).as_str(),
    );
    let floor = decimal_text(CORE_READY_TIMEOUT_FLOOR_MS);
    if naive == 0 {
        return head.concat(" 个出站/端点、其中 naive 出站 0 个 ⇒ 就绪门就是最低的 ").concat(
            floor.as_str(),
        ).concat(
            "ms，与订阅规模无关。请转查端口占用、TUN 网卡/提权，以及内核日志里的启动错误。",
        );
    }
    let engine_ms: u64 = match (naive as u64).checked_mul(per_naive_ms) {
        Some(n) => n,
        None => u64::MAX,
    };
    head.concat(" 个出站/端点，其中 ").concat(decimal_text(naive as u64).as_str()).concat(
        " 个是 naive —— 每个 naive 出站都是一个独立 Cronet Engine，内核在绑定入站之前逐个串行创建，估算本次起核需 ",
    ).concat(decimal_text(estimate_ms).as_str()).concat("ms（其中 naive 一项就占 ").concat(
        decimal_text(engine_ms).as_str(),
    ).concat("ms），故就绪门已按本次规模从 ").concat(floor.as_str()).concat("ms 放宽到 ").concat(
        decimal_text(budget_ms).as_str(),
    ).concat("ms，仍未等到。naive 节点每少一个省约 ").concat(decimal_text(per_naive_ms).as_str()).concat(
        "ms：请减少本次启用的 naive 节点数、或改选其他协议的节点后重试；若 naive 节点本就不多，再转查端口占用、TUN 网卡/提权与内核日志。",
    )
}

/// The pauses of an even budget are all the same. Those of a growing one begin with the budget's
/// and double from one attempt to the next, up to the seventeenth, as far as the numbers reach.
pub proof fn law_pauses_double_or_stay(
    budget: StartRetryBudget,
    attempt: u32,
    now: u64,
    next: u64,
)
    requires
        attempt < u32::MAX,
        call_ensures(start_backoff_delay_ms, (&budget, attempt), now),
        call_ensures(start_backoff_delay_ms, (&budget, (attempt + 1) as u32), next),
    ensures
        !budget.exponential_backoff ==> now == budget.delay_ms && next == budget.delay_ms,
        attempt <= 1 ==> now == budget.delay_ms,
        budget.exponential_backoff && 1 <= attempt < 17 && now * 2 <= u64::MAX && now < u64::MAX
            ==> next == now * 2,
        budget.exponential_backoff && 1 <= attempt < 17 && now * 2 > u64::MAX ==> next == u64::MAX,
        attempt >= 17 ==> next == now,
{
    lemma2_to64();
    assert(pow2(0) == 1);
    if attempt <= 1 {
        assert(budget.delay_ms * pow2(0) == budget.delay_ms) by (nonlinear_arith)
            requires
                pow2(0) == 1,
        ;
    }
    if 1 <= attempt < 17 {
        let d = doublings(attempt);
        assert(doublings((attempt + 1) as u32) == d + 1);
        lemma_pow2_unfold(d + 1);
        let p = pow2(d) as int;
        let q = pow2(d + 1) as int;
        let m = budget.delay_ms as int;
        assert(q == 2 * p);
        assert(m * q == 2 * (m * p)) by (nonlinear_arith)
            requires
                q == 2 * p,
        ;
    }
}

/// A start has two retries, which grow apart from two seconds, unless the core takes over all
/// traffic, the platform can use an interface of the system and a node does: then it has ten, three
/// seconds apart each.
pub proof fn law_the_budget_of_a_start(
    is_tun: bool,
    uses: Vec<bool>,
    supported: bool,
    r: StartRetryBudget,
    i: int,
)
    requires
        call_ensures(resolve_start_retry_budget, (is_tun, &uses, supported), r),
    ensures
        is_tun && supported && 0 <= i < uses@.len() && uses@[i] ==> r.max_retries == 10
            && r.delay_ms == 3000 && !r.exponential_backoff,
        !is_tun || !supported || (forall|k: int| 0 <= k < uses@.len() ==> !#[trigger] uses@[k])
            ==> r.max_retries == 2 && r.delay_ms == 2000 && r.exponential_backoff,
{
    if 0 <= i < uses@.len() && uses@[i] {
        assert(uses@.contains(true));
    }
    if uses@.contains(true) {
        let k = choose|k: int| 0 <= k < uses@.len() && uses@[k] == true;
        assert(uses@[k]);
    }
}

/// A message is one of a lasting failure exactly where it, in lower case, names one of these
/// causes; and such a one is never tried again.
pub proof fn law_lasting_failures_are_told_by_their_words(message: &str, r: bool)
    requires
        call_ensures(is_retryable_start_error, (message,), r),
    ensures
        occurs_in(lowercase_of(message@), "找不到"@) ==> !r,
        occurs_in(lowercase_of(message@), "权限"@) ==> !r,
        occurs_in(lowercase_of(message@), "permission"@) ==> !r,
        occurs_in(lowercase_of(message@), "enoent"@) ==> !r,
        occurs_in(lowercase_of(message@), "eacces"@) ==> !r,
        occurs_in(lowercase_of(message@), "eperm"@) ==> !r,
        occurs_in(lowercase_of(message@), "配置文件格式错误"@) ==> !r,
        occurs_in(lowercase_of(message@), "invalid config"@) ==> !r,
        !r ==> exists|word: Seq<char>|
            #![trigger occurs_in(lowercase_of(message@), word)]
            {
                &&& occurs_in(lowercase_of(message@), word)
                &&& seq![
                    "找不到"@,
                    "权限"@,
                    "permission"@,
                    "enoent"@,
                    "eacces"@,
                    "eperm"@,
                    "配置文件格式错误"@,
                    "invalid config"@,
                ].contains(word)
            },
{
    let words = seq![
        "找不到"@,
        "权限"@,
        "permission"@,
        "enoent"@,
        "eacces"@,
        "eperm"@,
        "配置文件格式错误"@,
        "invalid config"@,
    ];
    assert(words.contains(words[0]) && words.contains(words[1]) && words.contains(words[2])
        && words.contains(words[3]) && words.contains(words[4]) && words.contains(words[5])
        && words.contains(words[6]) && words.contains(words[7]));
}

proof fn lemma_still_occurs(front: Seq<char>, back: Seq<char>, found: Seq<char>)
    ensures
        occurs_in(front, found) ==> occurs_in(front + back, found),
        occurs_in(front + back, back),
{
    if occurs_in(front, found) {
        let at = choose|at: int| occurs_at(front, found, at);
        assert((front + back).subrange(at, at + found.len()) =~= front.subrange(
            at,
            at + found.len(),
        ));
        assert(occurs_at(front + back, found, at));
    }
    lemma_occurs_between(front + back, front, back, Seq::empty());
}

/// The message about a core that did not come up names the port, the budget, and how much there
/// was to start; where engines are to blame it names how many there are, and where there are none
/// it does not blame the size.
pub proof fn law_the_timeout_names_what_the_budget_was_made_of(
    api_port: u16,
    units: usize,
    naive: usize,
    budget_ms: u64,
    estimate_ms: u64,
    per_naive_ms: u64,
    r: String,
)
    requires
        call_ensures(
            main_core_ready_timeout_message,
            (api_port, units, naive, budget_ms, estimate_ms, per_naive_ms),
            r,
        ),
    ensures
        occurs_in(r@, decimal(api_port as nat)),
        occurs_in(r@, decimal(budget_ms as nat)),
        occurs_in(r@, decimal(units as nat)),
        naive > 0 ==> occurs_in(r@, decimal(naive as nat)),
        naive > 0 ==> occurs_in(r@, decimal(estimate_ms as nat)),
        naive > 0 ==> occurs_in(r@, decimal(per_naive_ms as nat)),
{
    let port = decimal(api_port as nat);
    let budget = decimal(budget_ms as nat);
    let count = decimal(units as nat);
    let floor = decimal(CORE_READY_TIMEOUT_FLOOR_MS as nat);
    let many = decimal(naive as nat);
    let estimate = decimal(estimate_ms as nat);
    let share = decimal(capped_product(naive as nat, per_naive_ms as nat));
    let each = decimal(per_naive_ms as nat);
    let a = "sing-box 起核超时：管理 API "@;
    let head_parts = seq![a, port, " 在 "@, budget, "ms 内未就绪。本次下发 "@, count];
    let tail_parts = if naive == 0 {
        seq![
            " 个出站/端点、其中 naive 出站 0 个 ⇒ 就绪门就是最低的 "@,
            floor,
            "ms，与订阅规模无关。请转查端口占用、TUN 网卡/提权，以及内核日志里的启动错误。"@,
        ]
    } else {
        seq![
            " 个出站/端点，其中 "@,
            many,
            " 个是 naive —— 每个 naive 出站都是一个独立 Cronet Engine，内核在绑定入站之前逐个串行创建，估算本次起核需 "@,
            estimate,
            "ms（其中 naive 一项就占 "@,
            share,
            "ms），故就绪门已按本次规模从 "@,
            floor,
            "ms 放宽到 "@,
            budget,
            "ms，仍未等到。naive 节点每少一个省约 "@,
            each,
            "ms：请减少本次启用的 naive 节点数、或改选其他协议的节点后重试；若 naive 节点本就不多，再转查端口占用、TUN 网卡/提权与内核日志。"@,
        ]
    };
    let parts = head_parts + tail_parts;
    assert(r@ == put_together(parts)) by {
        let n = parts.len() as int;
        if naive == 0 {
            lemma_put_together_take(parts, 9);
            lemma_put_together_take(parts, 8);
            lemma_put_together_take(parts, 7);
            lemma_put_together_take(parts, 6);
            lemma_put_together_take(parts, 5);
            lemma_put_together_take(parts, 4);
            lemma_put_together_take(parts, 3);
            lemma_put_together_take(parts, 2);
            lemma_put_together_take(parts, 1);
        } else {
            lemma_put_together_take(parts, 19);
            lemma_put_together_take(parts, 18);
            lemma_put_together_take(parts, 17);
            lemma_put_together_take(parts, 16);
            lemma_put_together_take(parts, 15);
            lemma_put_together_take(parts, 14);
            lemma_put_together_take(parts, 13);
            lemma_put_together_take(parts, 12);
            lemma_put_together_take(parts, 11);
            lemma_put_together_take(parts, 10);
            lemma_put_together_take(parts, 9);
            lemma_put_together_take(parts, 8);
            lemma_put_together_take(parts, 7);
            lemma_put_together_take(parts, 6);
            lemma_put_together_take(parts, 5);
            lemma_put_together_take(parts, 4);
            lemma_put_together_take(parts, 3);
            lemma_put_together_take(parts, 2);
            lemma_put_together_take(parts, 1);
        }
        assert(parts.take(n) =~= parts);
        assert(parts.take(0) =~= Seq::empty());
        assert(put_together(parts.take(0)) + a =~= a);
    }
    lemma_part_occurs(parts, 1);
    lemma_part_occurs(parts, 3);
    lemma_part_occurs(parts, 5);
    if naive > 0 {
        lemma_part_occurs(parts, 7);
        lemma_part_occurs(parts, 9);
        lemma_part_occurs(parts, 17);
    }
}

/// Texts, one behind the other.
pub open spec fn put_together(parts: Seq<Seq<char>>) -> Seq<char>
    decreases parts.len(),
{
    if parts.len() == 0 {
        Seq::empty()
    } else {
        put_together(parts.drop_last()) + parts.last()
    }
}

proof fn lemma_put_together_take(parts: Seq<Seq<char>>, n: int)
    requires
        0 < n <= parts.len(),
    ensures
        put_together(parts.take(n)) == put_together(parts.take(n - 1)) + parts[n - 1],
{
    assert(parts.take(n).drop_last() =~= parts.take(n - 1));
}

proof fn lemma_part_occurs(parts: Seq<Seq<char>>, i: int)
    requires
        0 <= i < parts.len(),
    ensures
        occurs_in(put_together(parts), parts[i]),
    decreases parts.len(),
{
    lemma_still_occurs(put_together(parts.drop_last()), parts.last(), parts[i]);
    if i < parts.len() - 1 {
        lemma_part_occurs(parts.drop_last(), i);
    }
}

/// A start is tried again exactly where its message, in lower case, tells of nothing that lasts.
pub proof fn law_a_lasting_failure_is_not_tried_again(
    lower: &str,
    lasting: bool,
    message: &str,
    again: bool,
)
    requires
        call_ensures(lasting_failure, (lower,), lasting),
        call_ensures(is_retryable_start_error, (message,), again),
        lower@ == lowercase_of(message@),
    ensures
        again <==> !lasting,
{
}

} // verus!
