use marketplace::profile::Profile;

fn to_yocto(value: &str) -> u128 {
    let yocto = 10u128.pow(24);
    match value.split_once('.') {
        None => value.parse::<u128>().unwrap() * yocto,
        Some((whole, frac)) => {
            let scale = 10u128.pow(24 - frac.len() as u32);
            whole.parse::<u128>().unwrap() * yocto + frac.parse::<u128>().unwrap() * scale
        },
    }
}

fn create_profile_bob() -> Profile {
    let profile_id = "bob".to_string();
    let mut profile = Profile::new(&profile_id);
    profile.rewards_available = to_yocto("3");
    profile.rewards_claimed = to_yocto("2");
    profile
}

#[test]
fn test_profile_new() {
    let profile_id = "bob".to_string();
    let profile = Profile::new(&profile_id);

    assert_eq!(profile.profile_id, profile_id, "wrong profile_id");
    assert_eq!(profile.rewards_available, to_yocto("0"), "wrong rewards_available");
    assert_eq!(profile.rewards_claimed, to_yocto("0"), "wrong rewards_claimed");
}

#[test]
fn test_profile_rewards_transfer() {
    let profile_id = "bob".to_string();
    let mut profile = Profile::new(&profile_id);

    profile.rewards_transfer(to_yocto("3"));
    profile.rewards_transfer(to_yocto("2"));
    assert_eq!(profile.rewards_available, to_yocto("5"), "wrong rewards_available");
}

#[test]
fn test_profile_rewards_claim() {
    let mut profile = create_profile_bob();

    let amount = profile.rewards_claim();
    assert_eq!(amount, to_yocto("3"));
    assert_eq!(profile.rewards_available, to_yocto("0"));
    assert_eq!(profile.rewards_claimed, to_yocto("5"));
}

#[test]
fn test_profile_rewards_claim_revert() {
    let mut profile = create_profile_bob();
    let amount: u128 = to_yocto("2");

    profile.rewards_claim_revert(amount);
    assert_eq!(profile.rewards_available, to_yocto("5"));
    assert_eq!(profile.rewards_claimed, to_yocto("0"));
}

#[test]
fn test_profile_claim_then_revert_restores_balances() {
    let mut profile = create_profile_bob();
    let amount = profile.rewards_claim();
    profile.rewards_claim_revert(amount);
    assert_eq!(profile.rewards_available, to_yocto("3"));
    assert_eq!(profile.rewards_claimed, to_yocto("2"));
}

#[test]
fn test_profile_associations_insert_remove() {
    let mut profile = Profile::new(&"bob".to_string());
    profile.offering_insert(&"alice".to_string());
    profile.offering_insert(&"alice".to_string());
    assert_eq!(profile.lots_offering.len(), 1);
    profile.bidding_insert(&"zoe".to_string());
    assert_eq!(profile.lots_bidding.len(), 1);
    profile.offering_remove(&"alice".to_string());
    assert_eq!(profile.lots_offering.len(), 0);
    profile.bidding_remove(&"nonexistent".to_string());
    assert_eq!(profile.lots_bidding.len(), 1);
}
