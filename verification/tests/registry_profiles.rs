use marketplace::api_profile::MIN_PROFILE_REWARDS_CLAIM_AMOUNT;
use marketplace::contract::{
    Contract, FractionView, LOT_OFFER_MAX_DURATION, LOT_OFFER_MIN_RESERVE_PRICE,
    LOT_REMOVE_UNSAFE_GRACE_DURATION,
};
use marketplace::profile::Profile;
use marketplace::Error;

fn to_yocto(value: &str) -> u128 {
    let yocto = 10u128.pow(24);
    match value.split_once('.') {
        None => value.parse::<u128>().unwrap() * yocto,
        Some((whole, frac)) => {
            let scale = 10u128.pow(24 - frac.len() as u32);
            whole.parse::<u128>().unwrap() * yocto + frac.parse::<u128>().unwrap() * scale
        },
    }
}

fn build_contract() -> Contract {
    Contract::new(
        FractionView { num: 1, denom: 10 },
        FractionView { num: 1, denom: 5 },
        FractionView { num: 4, denom: 5 },
    )
}

fn create_profile_bob() -> Profile {
    let profile_id = "bob".to_string();
    let mut profile = Profile::new(&profile_id);
    profile.rewards_available = to_yocto("3");
    profile.rewards_claimed = to_yocto("2");
    profile
}

fn create_contract_with_profile_bob() -> (Contract, String) {
    let mut contract = build_contract();
    let profile = create_profile_bob();
    let profile_id = profile.profile_id.clone();
    contract.internal_profile_save(profile);

    (contract, profile_id)
}

#[test]
fn contract_config_get() {
    let contract = build_contract();

    let config = contract.config_get();
    assert_eq!(
        config.seller_rewards_commission,
        FractionView { num: 1, denom: 10 },
        "wrong seller rewards commission",
    );
    assert_eq!(config.bid_step, FractionView { num: 1, denom: 5 }, "wrong bid_step");
    assert_eq!(
        config.prev_bidder_commission_share,
        FractionView { num: 4, denom: 5 },
        "wrong seller rewards commission",
    );
    assert_eq!(
        config.lot_offer_min_reserve_price,
        LOT_OFFER_MIN_RESERVE_PRICE,
        "wrong min reserve price",
    );
    assert_eq!(config.lot_offer_max_duration, LOT_OFFER_MAX_DURATION, "wrong max duration");
    assert_eq!(
        config.lot_remove_unsafe_grace_duration,
        LOT_REMOVE_UNSAFE_GRACE_DURATION,
        "wrong grace_duration",
    );
}

#[test]
fn api_profile_test_api_profile_internal_get() {
    let (contract, profile_id) = create_contract_with_profile_bob();

    let profile = contract.internal_profile_get(&profile_id);
    assert_eq!(contract.profiles_len(), 1, "wrong profiles len");
    assert_eq!(profile.profile_id, profile_id, "wrong rewards_available");
    assert_eq!(profile.rewards_available, to_yocto("3"), "wrong rewards_available");
    assert_eq!(profile.rewards_claimed, to_yocto("2"), "wrong rewards_claimed");
}

#[test]
fn api_profile_test_api_profile_internal_extract() {
    let (mut contract, profile_id) = create_contract_with_profile_bob();

    let profile = contract.internal_profile_extract(&profile_id);
    assert_eq!(contract.profiles_len(), 0, "wrong profiles len");
    assert_eq!(profile.profile_id, profile_id, "wrong rewards_available");
    assert_eq!(profile.rewards_available, to_yocto("3"), "wrong rewards_available");
    assert_eq!(profile.rewards_claimed, to_yocto("2"), "wrong rewards_claimed");
}

#[test]
fn api_profile_test_api_profile_internal_save_success() {
    let (contract, _profile_id) = create_contract_with_profile_bob();
    assert_eq!(contract.profiles_len(), 1, "wrong profiles len");
}

#[test]
fn contract_test_api_profile_internal_get() {
    let (contract, profile_id) = create_contract_with_profile_bob();

    let profile = contract.internal_profile_get(&profile_id);
    assert_eq!(contract.profiles_len(), 1, "wrong profiles len");
    assert_eq!(profile.profile_id, profile_id, "wrong rewards_available");
    assert_eq!(profile.rewards_available, to_yocto("3"), "wrong rewards_available");
    assert_eq!(profile.rewards_claimed, to_yocto("2"), "wrong rewards_claimed");
}

#[test]
fn contract_test_api_profile_internal_extract() {
    let (mut contract, profile_id) = create_contract_with_profile_bob();

    let profile = contract.internal_profile_extract(&profile_id);
    assert_eq!(contract.profiles_len(), 0, "wrong profiles len");
    assert_eq!(profile.profile_id, profile_id, "wrong rewards_available");
    assert_eq!(profile.rewards_available, to_yocto("3"), "wrong rewards_available");
    assert_eq!(profile.rewards_claimed, to_yocto("2"), "wrong rewards_claimed");
}

#[test]
fn contract_test_api_profile_internal_save_success() {
    let (contract, _profile_id) = create_contract_with_profile_bob();
    assert_eq!(contract.profiles_len(), 1, "wrong profiles len");
}

#[test]
fn test_api_profile_internal_rewards_transfer() {
    let mut contract = build_contract();
    let profile_id = "bob".to_string();

    contract.internal_profile_rewards_transfer(&profile_id, to_yocto("3"));
    assert_eq!(contract.profiles_len(), 1);

    let profile = contract.internal_profile_get(&profile_id);
    assert_eq!(profile.rewards_available, to_yocto("3"));

    contract.internal_profile_rewards_transfer(&profile_id, to_yocto("2"));
    let profile = contract.internal_profile_get(&profile_id);
    assert_eq!(profile.rewards_available, to_yocto("5"), "wrong amount");
}

#[test]
fn test_api_profile_internal_rewards_transfer_zero_is_noop() {
    let mut contract = build_contract();
    let profile_id = "bob".to_string();

    contract.internal_profile_rewards_transfer(&profile_id, 0);
    assert_eq!(contract.profiles_len(), 0, "a zero credit must not materialize a profile");
}

#[test]
fn test_api_profile_get_missing() {
    let contract = build_contract();
    let profile_id = "alice".to_string();

    let profile = contract.profile_get(&profile_id);
    assert_eq!(profile.profile_id, profile_id, "wrong profile_id");
}

#[test]
fn test_api_profile_get_present() {
    let (contract, profile_id) = create_contract_with_profile_bob();

    let response = contract.profile_get(&profile_id);
    assert_eq!(response.profile_id, profile_id, "wrong rewards_available");
    assert_eq!(response.rewards_available, to_yocto("3"), "wrong rewards_available");
    assert_eq!(response.rewards_claimed, to_yocto("2"), "wrong rewards_claimed");
}

#[test]
pub fn test_api_profile_rewards_claim_success() {
    let (mut contract, profile_id) = create_contract_with_profile_bob();

    contract.profile_rewards_claim(&profile_id).unwrap();

    let profile = contract.profile_get(&profile_id);
    assert_eq!(profile.rewards_available, to_yocto("0"), "wrong rewards_available");
    assert_eq!(profile.rewards_claimed, to_yocto("5"), "wrong rewards_claimed");
}

#[test]
pub fn test_api_profile_rewards_claim_not_enough_rejected() {
    let mut contract = build_contract();
    let profile_id = "alice".to_string();

    let r = contract.profile_rewards_claim(&profile_id);
    assert_eq!(r, Err(Error::RewardsClaimNotEnough));
    assert_eq!(contract.profiles_len(), 0);
}

#[test]
pub fn test_api_profile_rewards_claim_below_threshold_rejected() {
    let mut contract = build_contract();
    let profile_id = "bob".to_string();
    contract.internal_profile_rewards_transfer(&profile_id, MIN_PROFILE_REWARDS_CLAIM_AMOUNT - 1);

    let r = contract.profile_rewards_claim(&profile_id);
    assert_eq!(r, Err(Error::RewardsClaimNotEnough));
    let profile = contract.profile_get(&profile_id);
    assert_eq!(profile.rewards_available, MIN_PROFILE_REWARDS_CLAIM_AMOUNT - 1);
    assert_eq!(profile.rewards_claimed, 0);
}

#[test]
pub fn test_api_profile_rewards_claim_failed_payout_restores_balances() {
    let (mut contract, profile_id) = create_contract_with_profile_bob();

    let rewards = contract.profile_rewards_claim(&profile_id).unwrap();
    assert_eq!(rewards, to_yocto("3"));
    let profile = contract.profile_get(&profile_id);
    assert_eq!(profile.rewards_available, to_yocto("0"));
    assert_eq!(profile.rewards_claimed, to_yocto("5"));

    let stands = contract.profile_after_rewards_claim(&profile_id, rewards, false);
    assert_eq!(stands, false);
    let profile = contract.profile_get(&profile_id);
    assert_eq!(profile.rewards_available, to_yocto("3"));
    assert_eq!(profile.rewards_claimed, to_yocto("2"));
}

#[test]
pub fn test_api_profile_rewards_claim_successful_payout_keeps_claim() {
    let (mut contract, profile_id) = create_contract_with_profile_bob();

    let rewards = contract.profile_rewards_claim(&profile_id).unwrap();
    let stands = contract.profile_after_rewards_claim(&profile_id, rewards, true);
    assert_eq!(stands, true);
    let profile = contract.profile_get(&profile_id);
    assert_eq!(profile.rewards_available, to_yocto("0"));
    assert_eq!(profile.rewards_claimed, to_yocto("5"));
}
