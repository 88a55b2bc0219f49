use sitwego_api::referral::referral_code_from;
use sitwego_api::referral::{
    extend_by_reward_days, generate_referral_code, is_rewardable, normalize_referral_code,
    referred_display_name, validate_referral, ExtendedSubscription, ReferralError,
    ReferralRewardType, ReferralStatus,
};

const DAY: i64 = 86_400;

#[test]
fn referral_codes_have_the_prefix_and_six_upper_characters() {
    for _ in 0..20 {
        let code = generate_referral_code();
        assert_eq!(code.len(), 10);
        assert!(code.starts_with("TRN-"));
        assert!(code[4..]
            .chars()
            .all(|c| c == '_' || c == '-' || c.is_ascii_digit() || c.is_ascii_uppercase()));
    }
}

#[test]
fn codes_are_normalised_for_lookup() {
    assert_eq!(normalize_referral_code("  trn-ab12cd \n"), "TRN-AB12CD");
    assert_eq!(normalize_referral_code("straße"), "STRASSE");
    assert_eq!(normalize_referral_code("   "), "");
}

#[test]
fn reward_type_from_configuration() {
    assert_eq!(ReferralRewardType::from_config("subscription_days"), ReferralRewardType::SubscriptionDays);
    assert_eq!(ReferralRewardType::from_config("  Subscription_Days "), ReferralRewardType::SubscriptionDays);
    assert_eq!(ReferralRewardType::from_config("BADGE"), ReferralRewardType::Badge);
    assert_eq!(ReferralRewardType::from_config("cash_credit"), ReferralRewardType::CashCredit);
    assert_eq!(ReferralRewardType::from_config("anything else"), ReferralRewardType::CashCredit);
}

#[test]
fn only_pending_or_completed_referrals_are_rewarded() {
    assert!(is_rewardable(ReferralStatus::Pending));
    assert!(is_rewardable(ReferralStatus::Completed));
    assert!(!is_rewardable(ReferralStatus::Rewarded));
    assert!(!is_rewardable(ReferralStatus::Expired));
}

#[test]
fn referral_validation_errors() {
    assert_eq!(validate_referral(None, "d2", false), Err(ReferralError::InvalidCode));
    assert_eq!(validate_referral(Some("d2"), "d2", false), Err(ReferralError::OwnCode));
    assert_eq!(validate_referral(Some("d1"), "d2", true), Err(ReferralError::AlreadyReferred));
    assert_eq!(validate_referral(Some("d1"), "d2", false), Ok(()));
}

#[test]
fn display_name_falls_back() {
    assert_eq!(referred_display_name("Jane", "Doe"), "Jane Doe");
    assert_eq!(referred_display_name("Jane", ""), "Jane");
    assert_eq!(referred_display_name("", "  "), "A driver");
}

#[test]
fn reward_days_extend_from_the_later_of_end_and_now() {
    let now = 1_000 * DAY;
    assert_eq!(extend_by_reward_days(Some(now + 5 * DAY), None, now, 7), Some(ExtendedSubscription {
        plan_end: now + 12 * DAY,
        free_trial_end: None,
    }));
    assert_eq!(extend_by_reward_days(Some(now - 5 * DAY), Some(now - DAY), now, 7), Some(ExtendedSubscription {
        plan_end: now + 7 * DAY,
        free_trial_end: Some(now + 7 * DAY),
    }));
    assert_eq!(extend_by_reward_days(None, Some(now + DAY), now, 1), Some(ExtendedSubscription {
        plan_end: now + DAY,
        free_trial_end: Some(now + 2 * DAY),
    }));
    assert_eq!(extend_by_reward_days(Some(now), None, now, 0), None);
    assert_eq!(extend_by_reward_days(Some(now), None, now, -3), None);
}

use sitwego_api::referral::{
    credit_balance, next_issue_step, plan_reward, reward_days, CodeIssueStep, ReferralRecord,
    RewardAction, RewardPlan, WalletCredit, MAX_CODE_ATTEMPTS,
};

#[test]
fn code_issuing_retries_then_gives_up() {
    assert_eq!(next_issue_step(1, Some("TRN-ABCDEF".to_string())), CodeIssueStep::UseExisting("TRN-ABCDEF".to_string()));
    assert_eq!(next_issue_step(1, None), CodeIssueStep::TryAgain);
    assert_eq!(next_issue_step(4, None), CodeIssueStep::TryAgain);
    assert_eq!(next_issue_step(MAX_CODE_ATTEMPTS, None), CodeIssueStep::GiveUp);
    assert_eq!(MAX_CODE_ATTEMPTS, 5);
}

#[test]
fn reward_days_round_toward_zero() {
    assert_eq!(reward_days(700), 7);
    assert_eq!(reward_days(750), 7);
    assert_eq!(reward_days(99), 0);
    assert_eq!(reward_days(-150), -1);
    assert_eq!(reward_days(i64::MIN), i64::MIN / 100);
}

#[test]
fn rewarding_a_pending_referral() {
    let pending = ReferralRecord { status: ReferralStatus::Pending, completed_at: None };
    assert_eq!(
        plan_reward(Some(pending), ReferralRewardType::CashCredit, 50_000, 77),
        Some(RewardPlan {
            referral: ReferralRecord { status: ReferralStatus::Rewarded, completed_at: Some(77) },
            rewarded_at: 77,
            action: RewardAction::CreditWallet { amount: 50_000 },
        })
    );
    let completed = ReferralRecord { status: ReferralStatus::Completed, completed_at: Some(10) };
    let plan = plan_reward(Some(completed), ReferralRewardType::SubscriptionDays, 750, 77).unwrap();
    assert_eq!(plan.referral.completed_at, Some(10));
    assert_eq!(plan.action, RewardAction::ExtendSubscription { days: 7 });
    let badge = plan_reward(Some(completed), ReferralRewardType::Badge, 1, 77).unwrap();
    assert_eq!(badge.action, RewardAction::LedgerOnly);
}

#[test]
fn referrals_are_rewarded_once() {
    assert_eq!(plan_reward(None, ReferralRewardType::CashCredit, 100, 1), None);
    let pending = ReferralRecord { status: ReferralStatus::Pending, completed_at: None };
    let first = plan_reward(Some(pending), ReferralRewardType::CashCredit, 100, 1).unwrap();
    assert_eq!(plan_reward(Some(first.referral), ReferralRewardType::CashCredit, 100, 2), None);
    let expired = ReferralRecord { status: ReferralStatus::Expired, completed_at: None };
    assert_eq!(plan_reward(Some(expired), ReferralRewardType::Badge, 1, 2), None);
}

#[test]
fn wallet_credit_adds_to_the_balance() {
    assert_eq!(credit_balance(1_000, 250), WalletCredit { amount: 250, balance_after: 1_250 });
    assert_eq!(credit_balance(0, -40), WalletCredit { amount: -40, balance_after: -40 });
}

use sitwego_api::referral::total_reward_days;

#[test]
fn reward_days_add_up_whole_days() {
    assert_eq!(total_reward_days(&[700, 350, 99]), 10);
    assert_eq!(total_reward_days(&[]), 0);
    assert_eq!(total_reward_days(&[-150, 300]), 2);
}

#[test]
fn a_code_is_the_prefix_and_the_upper_cased_id() {
    assert_eq!(referral_code_from("a3k9x2"), "TRN-A3K9X2");
    assert_eq!(referral_code_from("_-Zq0b"), "TRN-_-ZQ0B");
    assert_eq!(referral_code_from(""), "TRN-");
}
