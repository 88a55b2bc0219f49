//! Driver referral programme: codes, registration checks and rewards.
//!
//! Instants are seconds since the Unix epoch.
use vstd::prelude::*;
use vstd::string::*;

use crate::text::{chars_of, lower, lower_chars, string_of, trim_chars, trimmed, upper, upper_chars};

verus! {

/// The kinds of reward a referral can earn.
#[derive(Clone, Copy, Debug, PartialEq, Eq, Structural)]
pub enum ReferralRewardType {
    SubscriptionDays,
    CashCredit,
    Badge,
}

/// Where a referral stands.
#[derive(Clone, Copy, Debug, PartialEq, Eq, Structural)]
pub enum ReferralStatus {
    Pending,
    Completed,
    Rewarded,
    Expired,
}

/// Why a referral code cannot be applied.
#[derive(Clone, Copy, Debug, PartialEq, Eq, Structural)]
pub enum ReferralError {
    /// No driver owns the code.
    InvalidCode,
    /// The code is the referred driver's own.
    OwnCode,
    /// The referred driver already used a code.
    AlreadyReferred,
}

/// The new end dates of a subscription extended by reward days.
#[derive(Clone, Copy, Debug, PartialEq, Eq, Structural)]
pub struct ExtendedSubscription {
    pub plan_end: i64,
    pub free_trial_end: Option<i64>,
}

/// Characters of the nanoid "safe" alphabet.
pub open spec fn is_safe_char(c: char) -> bool {
    c == '_' || c == '-' || ('0' <= c && c <= '9') || ('a' <= c && c <= 'z') || ('A' <= c && c
        <= 'Z')
}

/// Characters a referral code's random part can hold once upper-cased.
pub open spec fn is_code_char(c: char) -> bool {
    c == '_' || c == '-' || ('0' <= c && c <= '9') || ('A' <= c && c <= 'Z')
}

/// The reward type a configuration value names; unknown values mean cash credit.
pub open spec fn reward_type_of(s: Seq<char>) -> ReferralRewardType {
    let t = lower(trimmed(s));
    if t == "subscription_days"@ {
        ReferralRewardType::SubscriptionDays
    } else if t == "badge"@ {
        ReferralRewardType::Badge
    } else {
        ReferralRewardType::CashCredit
    }
}

/// The Unicode upper-casing Rust's `str::to_uppercase` performs.
pub uninterp spec fn unicode_upper(s: Seq<char>) -> Seq<char>;

/// The name a referral shows for a driver: first and last name joined by a
/// space and trimmed, or "A driver" when that is empty.
pub open spec fn shown_name(first: Seq<char>, last: Seq<char>) -> Seq<char> {
    let n = trimmed(first + " "@ + last);
    if n.len() == 0 {
        "A driver"@
    } else {
        n
    }
}

/// Generates 6 random characters from nanoid's "safe" alphabet, by calling
/// `nanoid::format` with the default random source. Claimed: six characters,
/// each from that alphabet. Not claimed: which ones (they are random).
#[verifier::external_body]
fn random_safe_id() -> (id: String)
    ensures
        id@.len() == 6,
        forall|i: int| 0 <= i < id@.len() ==> is_safe_char(#[trigger] id@[i]),
{
    nanoid::format(nanoid::rngs::default, &nanoid::alphabet::SAFE, 6)
}

/// Calls `str::to_uppercase`. Claimed: the result is a function of the text alone.
#[verifier::external_body]
fn to_uppercase(s: &str) -> (u: String)
    ensures
        u@ == unicode_upper(s@),
{
    s.to_uppercase()
}

/// The referral code made from an id: the prefix `TRN-` and the id with its
/// ASCII letters upper-cased.
pub fn referral_code_from(id: &str) -> (code: String)
    ensures
        code@ == "TRN-"@ + upper(id@),
{
    let up = upper_chars(chars_of(id).as_slice());
    let code = String::from_str("TRN-").concat(string_of(up.as_slice()).as_str());
    proof {
        reveal_strlit("TRN-");
    }
    code
}

/// Build a fresh referral code, e.g. `TRN-A3K9X2`: the prefix `TRN-` and six
/// random characters of nanoid's safe alphabet, upper-cased.
pub fn generate_referral_code() -> (code: String)
    ensures
        exists|id: Seq<char>|
            id.len() == 6 && (forall|i: int| 0 <= i < 6 ==> is_safe_char(#[trigger] id[i]))
                && code@ == "TRN-"@ + upper(id),
        code@.len() == 10,
        code@.subrange(0, 4) == "TRN-"@,
        forall|i: int| 4 <= i < 10 ==> is_code_char(#[trigger] code@[i]),
{
    let id = random_safe_id();
    let code = referral_code_from(id.as_str());
    proof {
        reveal_strlit("TRN-");
        assert(code@.subrange(0, 4) =~= "TRN-"@);
        assert forall|i: int| 4 <= i < 10 implies is_code_char(#[trigger] code@[i]) by {
            assert(code@[i] == upper(id@)[i - 4]);
            assert(is_safe_char(id@[i - 4]));
        }
    }
    code
}

/// A referral code as typed by a driver, normalised for lookup: trimmed and
/// upper-cased.
pub fn normalize_referral_code(code: &str) -> (n: String)
    ensures
        n@ == unicode_upper(trimmed(code@)),
{
    let t = string_of(trim_chars(chars_of(code).as_slice()).as_slice());
    to_uppercase(t.as_str())
}

impl ReferralRewardType {
    /// The reward type a configuration value names (trimmed, without ASCII
    /// case); anything unknown means cash credit.
    pub fn from_config(s: &str) -> (t: ReferralRewardType)
        ensures
            t == reward_type_of(s@),
    {
        let v = lower_chars(trim_chars(chars_of(s).as_slice()).as_slice());
        let sd = chars_of("subscription_days");
        let badge = chars_of("badge");
        if chars_eq(v.as_slice(), sd.as_slice()) {
            ReferralRewardType::SubscriptionDays
        } else if chars_eq(v.as_slice(), badge.as_slice()) {
            ReferralRewardType::Badge
        } else {
            ReferralRewardType::CashCredit
        }
    }
}

fn chars_eq(a: &[char], b: &[char]) -> (r: bool)
    ensures
        r == (a@ == b@),
{
    if a.len() != b.len() {
        return false;
    }
    let mut i: usize = 0;
    while i < a.len()
        invariant
            a@.len() == b@.len(),
            i <= a@.len(),
            forall|k: int| 0 <= k < i ==> a@[k] == b@[k],
        decreases a@.len() - i,
    {
        if a[i] != b[i] {
            return false;
        }
        i = i + 1;
    }
    assert(a@ =~= b@);
    true
}

/// Whether a referral in this state can still be rewarded (once only).
pub fn is_rewardable(status: ReferralStatus) -> (b: bool)
    ensures
        b == (status == ReferralStatus::Pending || status == ReferralStatus::Completed),
{
    match status {
        ReferralStatus::Pending | ReferralStatus::Completed => true,
        _ => false,
    }
}

/// Whether a referral code can be applied to the referred driver: the code
/// must belong to some driver (`code_owner`), not to the referred driver, and
/// the referred driver must not have used a code before.
pub fn validate_referral(code_owner: Option<&str>, referred_id: &str, already_referred: bool) -> (r:
    Result<(), ReferralError>)
    ensures
        match code_owner {
            None => r == Err::<(), ReferralError>(ReferralError::InvalidCode),
            Some(owner) => if owner@ == referred_id@ {
                r == Err::<(), ReferralError>(ReferralError::OwnCode)
            } else if already_referred {
                r == Err::<(), ReferralError>(ReferralError::AlreadyReferred)
            } else {
                r == Ok::<(), ReferralError>(())
            },
        },
{
    match code_owner {
        None => Err(ReferralError::InvalidCode),
        Some(owner) => {
            if chars_eq(chars_of(owner).as_slice(), chars_of(referred_id).as_slice()) {
                Err(ReferralError::OwnCode)
            } else if already_referred {
                Err(ReferralError::AlreadyReferred)
            } else {
                Ok(())
            }
        },
    }
}

/// The name a referral shows for a driver: "first last" trimmed, or
/// "A driver" when that is empty.
pub fn referred_display_name(first: &str, last: &str) -> (n: String)
    ensures
        n@ == shown_name(first@, last@),
{
    let full = String::from_str(first).concat(" ").concat(last);
    let t = trim_chars(chars_of(full.as_str()).as_slice());
    if t.len() == 0 {
        String::from_str("A driver")
    } else {
        string_of(t.as_slice())
    }
}

/// Extend a subscription by `days` reward days. Both end dates are anchored at
/// the later of their current value and `now`, so an expired subscription
/// still gets a full grant from today; a missing plan end counts as `now`,
/// and a missing trial end stays missing. `None` when there is nothing to
/// grant (`days <= 0`).
pub fn extend_by_reward_days(
    plan_end: Option<i64>,
    free_trial_end: Option<i64>,
    now: i64,
    days: i64,
) -> (r: Option<ExtendedSubscription>)
    requires
        -0x1_0000_0000_0000 <= now <= 0x1_0000_0000_0000,
        plan_end matches Some(p) ==> -0x1_0000_0000_0000 <= p <= 0x1_0000_0000_0000,
        free_trial_end matches Some(t) ==> -0x1_0000_0000_0000 <= t <= 0x1_0000_0000_0000,
        days <= 0x1_0000_0000,
    ensures
        days <= 0 ==> r is None,
        days > 0 ==> r == Some(
            ExtendedSubscription {
                plan_end: (later_of(
                    match plan_end {
                        Some(p) => p,
                        None => now,
                    },
                    now,
                ) + days * 86400) as i64,
                free_trial_end: match free_trial_end {
                    Some(t) => Some((later_of(t, now) + days * 86400) as i64),
                    None => None,
                },
            },
        ),
{
    if days <= 0 {
        return None;
    }
    let extend = days * 86400;
    let base = match plan_end {
        Some(p) => p,
        None => now,
    };
    let plan = if base > now {
        base
    } else {
        now
    } + extend;
    let trial = match free_trial_end {
        Some(t) => Some(
            if t > now {
                t
            } else {
                now
            } + extend,
        ),
        None => None,
    };
    Some(ExtendedSubscription { plan_end: plan, free_trial_end: trial })
}

/// The later of two instants.
pub open spec fn later_of(a: i64, b: i64) -> int {
    if a > b {
        a as int
    } else {
        b as int
    }
}

/// How many fresh codes are tried before giving up on a collision streak.
pub const MAX_CODE_ATTEMPTS: u32 = 5;

/// What to do after inserting a freshly generated code failed.
#[derive(Clone, Debug, PartialEq, Eq)]
pub enum CodeIssueStep {
    /// A concurrent request already gave the driver this code: use it.
    UseExisting(String),
    /// The code collided with another driver's: generate another one.
    TryAgain,
    /// Every attempt collided.
    GiveUp,
}

/// What a referral looks like to the reward step.
#[derive(Clone, Copy, Debug, PartialEq, Eq, Structural)]
pub struct ReferralRecord {
    pub status: ReferralStatus,
    pub completed_at: Option<i64>,
}

/// How a reward reaches the referrer.
#[derive(Clone, Copy, Debug, PartialEq, Eq, Structural)]
pub enum RewardAction {
    /// Credit the referrer's wallet with this many cents.
    CreditWallet { amount: i64 },
    /// Extend the referrer's subscription by this many days.
    ExtendSubscription { days: i64 },
    /// Only the ledger records the reward.
    LedgerOnly,
}

/// The changes rewarding a referral makes.
#[derive(Clone, Copy, Debug, PartialEq, Eq, Structural)]
pub struct RewardPlan {
    /// The referral after the reward: rewarded, and completed when it was
    /// not yet.
    pub referral: ReferralRecord,
    pub rewarded_at: i64,
    pub action: RewardAction,
}

/// A wallet ledger entry: the amount credited and the balance it leaves.
#[derive(Clone, Copy, Debug, PartialEq, Eq, Structural)]
pub struct WalletCredit {
    pub amount: i128,
    pub balance_after: i128,
}

/// Whether a referral in this state can still be rewarded.
pub open spec fn rewardable(status: ReferralStatus) -> bool {
    status == ReferralStatus::Pending || status == ReferralStatus::Completed
}

/// The whole days of a reward value given in hundredths, rounded toward zero.
pub open spec fn reward_days_of(value_hundredths: i64) -> int {
    if value_hundredths >= 0 {
        value_hundredths / 100
    } else {
        -((-value_hundredths) / 100)
    }
}

/// The reward, if any, for activating a referred driver at `now`.
pub open spec fn reward_plan_of(
    referral: Option<ReferralRecord>,
    reward_type: ReferralRewardType,
    reward_value: i64,
    now: i64,
) -> Option<RewardPlan> {
    match referral {
        None => None,
        Some(r) => if !rewardable(r.status) {
            None
        } else {
            Some(
                RewardPlan {
                    referral: ReferralRecord {
                        status: ReferralStatus::Rewarded,
                        completed_at: match r.completed_at {
                            Some(t) => Some(t),
                            None => Some(now),
                        },
                    },
                    rewarded_at: now,
                    action: match reward_type {
                        ReferralRewardType::CashCredit => RewardAction::CreditWallet {
                            amount: reward_value,
                        },
                        ReferralRewardType::SubscriptionDays => RewardAction::ExtendSubscription {
                            days: reward_days_of(reward_value) as i64,
                        },
                        ReferralRewardType::Badge => RewardAction::LedgerOnly,
                    },
                },
            )
        },
    }
}

/// What to do after inserting the `attempts_made`-th fresh code failed, given
/// the code the driver has by now, if any.
pub fn next_issue_step(attempts_made: u32, existing: Option<String>) -> (step: CodeIssueStep)
    ensures
        match existing {
            Some(code) => step == CodeIssueStep::UseExisting(code),
            None => if attempts_made < MAX_CODE_ATTEMPTS {
                step == CodeIssueStep::TryAgain
            } else {
                step == CodeIssueStep::GiveUp
            },
        },
{
    match existing {
        Some(code) => CodeIssueStep::UseExisting(code),
        None => if attempts_made < MAX_CODE_ATTEMPTS {
            CodeIssueStep::TryAgain
        } else {
            CodeIssueStep::GiveUp
        },
    }
}

/// The whole days of a reward value given in hundredths, rounded toward zero
/// (a fractional reward grants only its whole days).
pub fn reward_days(value_hundredths: i64) -> (days: i64)
    ensures
        days == reward_days_of(value_hundredths),
{
    if value_hundredths >= 0 {
        value_hundredths / 100
    } else if value_hundredths == i64::MIN {
        -92_233_720_368_547_758
    } else {
        -((-value_hundredths) / 100)
    }
}

/// The reward for activating a referred driver at `now`: nothing when the
/// driver was not referred or the referral was already rewarded or expired;
/// otherwise the referral becomes rewarded (and completed, if it was not) and
/// the reward is paid as its type says — cash into the wallet, whole days onto
/// the subscription, or a ledger entry alone.
pub fn plan_reward(
    referral: Option<ReferralRecord>,
    reward_type: ReferralRewardType,
    reward_value: i64,
    now: i64,
) -> (p: Option<RewardPlan>)
    ensures
        p == reward_plan_of(referral, reward_type, reward_value, now),
{
    match referral {
        None => None,
        Some(r) => {
            if !is_rewardable(r.status) {
                return None;
            }
            let completed_at = match r.completed_at {
                Some(t) => Some(t),
                None => Some(now),
            };
            let action = match reward_type {
                ReferralRewardType::CashCredit => RewardAction::CreditWallet { amount: reward_value },
                ReferralRewardType::SubscriptionDays => RewardAction::ExtendSubscription {
                    days: reward_days(reward_value),
                },
                ReferralRewardType::Badge => RewardAction::LedgerOnly,
            };
            Some(
                RewardPlan {
                    referral: ReferralRecord { status: ReferralStatus::Rewarded, completed_at },
                    rewarded_at: now,
                    action,
                },
            )
        },
    }
}

/// Credit `amount` cents to a wallet holding `balance` cents.
pub fn credit_balance(balance: i128, amount: i128) -> (c: WalletCredit)
    requires
        i128::MIN <= balance + amount <= i128::MAX,
    ensures
        c.amount == amount,
        c.balance_after == balance + amount,
{
    WalletCredit { amount, balance_after: balance + amount }
}

/// Law: a referral is rewarded at most once. Once the reward's changes are
/// applied, activating the referred driver again rewards nothing.
pub proof fn law_referral_rewarded_once(
    referral: ReferralRecord,
    reward_type: ReferralRewardType,
    reward_value: i64,
    now: i64,
    again_type: ReferralRewardType,
    again_value: i64,
    later: i64,
)
    requires
        reward_plan_of(Some(referral), reward_type, reward_value, now) is Some,
    ensures
        reward_plan_of(
            Some(reward_plan_of(Some(referral), reward_type, reward_value, now)->0.referral),
            again_type,
            again_value,
            later,
        ) is None,
{
}

/// Law: the completion time a referral had is kept when it is rewarded.
pub proof fn law_reward_keeps_completion_time(
    referral: ReferralRecord,
    reward_type: ReferralRewardType,
    reward_value: i64,
    now: i64,
)
    requires
        referral.completed_at is Some,
        rewardable(referral.status),
    ensures
        reward_plan_of(Some(referral), reward_type, reward_value, now)->0.referral.completed_at
            == referral.completed_at,
{
}


/// Sum of the whole days of the first `n` reward values.
pub open spec fn reward_days_sum(values: Seq<i64>, n: int) -> int
    decreases n,
{
    if n <= 0 {
        0
    } else {
        reward_days_sum(values, n - 1) + reward_days_of(values[n - 1])
    }
}

/// The whole days a referrer earned from subscription-day rewards with these
/// values (in hundredths), each rounded toward zero.
pub fn total_reward_days(values: &[i64]) -> (total: i64)
    requires
        forall|n: int|
            0 <= n <= values@.len() ==> i64::MIN <= #[trigger] reward_days_sum(values@, n)
                <= i64::MAX,
    ensures
        total == reward_days_sum(values@, values@.len() as int),
{
    let mut total: i64 = 0;
    let mut i: usize = 0;
    while i < values.len()
        invariant
            i <= values@.len(),
            forall|n: int|
                0 <= n <= values@.len() ==> i64::MIN <= #[trigger] reward_days_sum(values@, n)
                    <= i64::MAX,
            total == reward_days_sum(values@, i as int),
        decreases values@.len() - i,
    {
        assert(i64::MIN <= reward_days_sum(values@, i + 1) <= i64::MAX);
        total = total + reward_days(values[i]);
        i = i + 1;
    }
    total
}

} // verus!
