use fight::account::AccountId;
use fight::animal_fight::AnimalFight;
use fight::crowdfunding::{Contract, CrowdFunding, Funder};

fn acct(s: &str) -> AccountId {
    AccountId::parse(s).unwrap()
}

#[test]
fn a_saved_game_restores() {
    let mut game = AnimalFight::new();
    assert_eq!(game.add_first(&acct("alice.near"), &"rex".to_string()), "success");
    assert_eq!(game.add_first(&acct("bob.near"), &"tom".to_string()), "success");
    assert_eq!(game.levelup(&"tom".to_string()), "success");

    let mut pets = game.pets();
    pets.sort();
    assert_eq!(
        pets,
        vec![
            ("alice.near".to_string(), "rex".to_string(), 1),
            ("bob.near".to_string(), "tom".to_string(), 2),
        ]
    );

    let listed: Vec<(AccountId, String, u32)> =
        pets.into_iter().map(|(o, n, l)| (acct(&o), n, l)).collect();
    let mut restored = AnimalFight::from_pets(&listed).unwrap();
    assert_eq!(restored.get_level(&"rex".to_string()), 1);
    assert_eq!(restored.get_level(&"tom".to_string()), 2);
    assert_eq!(restored.get_all(&acct("bob.near")), "tom");
    assert_eq!(restored.add_first(&acct("alice.near"), &"max".to_string()), "already exist");
}

#[test]
fn inconsistent_saved_games_are_refused() {
    let zero = vec![(acct("alice.near"), "rex".to_string(), 0)];
    assert!(AnimalFight::from_pets(&zero).is_none());
    let two_pets = vec![(acct("alice.near"), "rex".to_string(), 1), (acct("alice.near"), "tom".to_string(), 1)];
    assert!(AnimalFight::from_pets(&two_pets).is_none());
    let shared_name = vec![(acct("alice.near"), "rex".to_string(), 1), (acct("bob.near"), "rex".to_string(), 3)];
    assert!(AnimalFight::from_pets(&shared_name).is_none());
    assert!(AnimalFight::from_pets(&vec![]).unwrap().pets().is_empty());
}

#[test]
fn a_saved_platform_restores() {
    let owner = acct("owner.near");
    let mut platform = Contract::init(owner.clone());
    platform.newCampaign(&owner, "a".to_string(), acct("r1.near"), 0, 100);
    platform.newCampaign(&owner, "b".to_string(), acct("r2.near"), 2, 500);
    platform.bid(acct("f1.near"), 8, 1);
    platform.bid(acct("f2.near"), 9, 1);
    platform.bid(acct("f3.near"), 50, 2);

    let campaigns: Vec<CrowdFunding> = platform
        .get_all_crowdFunding()
        .unwrap()
        .into_iter()
        .map(|c| {
            CrowdFunding::with_totals(
                c.theme().clone(),
                c.receiver.clone(),
                c.funding_goal(),
                c.number_funders(),
                c.total_amount(),
            )
        })
        .collect();
    let funders: Vec<Vec<Funder>> = (1..=2)
        .map(|k| {
            platform
                .get_funders_by_num_campagins(k)
                .unwrap()
                .into_iter()
                .map(|f| Funder::new(f.addr().clone(), f.amount()))
                .collect()
        })
        .collect();
    let mut restored = Contract::restore(owner.clone(), campaigns, funders).unwrap();
    assert_eq!(restored.get_contract_owner_id().unwrap().as_str(), "owner.near");
    let c1 = restored.get_crowdFunding_by_num_campagins(1).unwrap();
    assert_eq!((c1.theme().as_str(), c1.total_amount(), c1.number_funders()), ("a", 17, 2));
    let c2 = restored.get_crowdFunding_by_num_campagins(2).unwrap();
    assert_eq!((c2.theme().as_str(), c2.total_amount(), c2.number_funders()), ("b", 50, 3));
    assert_eq!(restored.get_funders_by_num_campagins(1).unwrap().len(), 2);
    assert_eq!(restored.newCampaign(&owner, "c".to_string(), acct("r3.near"), 0, 1), Some(3));
    assert_eq!(restored.bid(acct("f4.near"), 1, 3), 1);
}

#[test]
fn unbalanced_saved_platforms_are_refused() {
    let owner = acct("owner.near");
    // a total that is not the sum of the donations
    let campaigns = vec![CrowdFunding::with_totals("a".to_string(), acct("r1.near"), 100, 1, 10)];
    let funders = vec![vec![Funder::new(acct("f1.near"), 9)]];
    assert!(Contract::restore(owner.clone(), campaigns, funders).is_none());
    // fewer funders counted than donations recorded
    let campaigns = vec![CrowdFunding::with_totals("a".to_string(), acct("r1.near"), 100, 0, 9)];
    let funders = vec![vec![Funder::new(acct("f1.near"), 9)]];
    assert!(Contract::restore(owner.clone(), campaigns, funders).is_none());
    // a list of donations missing
    let campaigns = vec![CrowdFunding::with_totals("a".to_string(), acct("r1.near"), 100, 0, 0)];
    assert!(Contract::restore(owner.clone(), campaigns, vec![]).is_none());
    // donations whose sum overflows
    let campaigns = vec![CrowdFunding::with_totals("a".to_string(), acct("r1.near"), 100, 2, u128::MAX)];
    let funders = vec![vec![Funder::new(acct("f1.near"), u128::MAX), Funder::new(acct("f2.near"), 1)]];
    assert!(Contract::restore(owner.clone(), campaigns, funders).is_none());
    // balanced books
    let campaigns = vec![CrowdFunding::with_totals("a".to_string(), acct("r1.near"), 100, 3, 9)];
    let funders = vec![vec![Funder::new(acct("f1.near"), 4), Funder::new(acct("f2.near"), 5)]];
    assert!(Contract::restore(owner, campaigns, funders).is_some());
}
