use fight::account::AccountId;
use fight::animal_fight::{levelup_deposit_is_enough, AnimalFight, LEVELUP_MIN_DEPOSIT};

/// The account making the calls in these tests.
fn signer() -> AccountId {
    AccountId::parse("bob_near").unwrap()
}

#[test]
fn test__add_first() {
    let mut contract = AnimalFight::new();
    let name = "asdf".to_string();
    assert_eq!(contract.add_first(&signer(), &name), "success".to_string());
    assert_eq!(contract.add_first(&signer(), &name), "already exist".to_string());
}

#[test]
fn test__get_name() {
    let mut contract = AnimalFight::new();
    let name = "asdf".to_string();
    assert_eq!(contract.add_first(&signer(), &name), "success".to_string());
    assert_eq!(contract.get_all(&signer()), "asdf".to_string());
}

#[test]
fn test__fight() {
    let mut contract = AnimalFight::new();
    let name1 = "asdf".to_string();
    let name2 = "aaaa".to_string();
    assert_eq!(contract.add_first(&signer(), &name1), "success".to_string());

    let second = AccountId::parse("dd2.test").unwrap();
    assert_eq!(contract.add_first(&second, &name2), "success");

    assert_eq!(contract.fight_with(&name1, &name2), "equal");
}

#[test]
fn test__remove() {
    let mut contract = AnimalFight::new();
    let name = "asdf".to_string();
    assert_eq!(contract.add_first(&signer(), &name), "success".to_string());
    assert_eq!(contract.remove_animal(&signer()), "success".to_string());
}

#[test]
fn test__levelup() {
    let mut contract = AnimalFight::new();
    let name = "asdf".to_string();
    assert_eq!(contract.add_first(&signer(), &name), "success".to_string());
    assert_eq!(contract.levelup(&name), "success".to_string());
}

#[test]
fn add_first_refuses_a_taken_name() {
    let mut contract = AnimalFight::new();
    let name = "asdf".to_string();
    let other = AccountId::parse("alice.near").unwrap();
    assert_eq!(contract.add_first(&signer(), &name), "success");
    assert_eq!(contract.add_first(&other, &name), "exist name");
    assert_eq!(contract.get_all(&other), "NO pets");
}

#[test]
fn new_pet_starts_at_level_one_and_levels_up() {
    let mut contract = AnimalFight::new();
    let name = "rex".to_string();
    assert_eq!(contract.get_level(&name), 0);
    assert_eq!(contract.add_first(&signer(), &name), "success");
    assert_eq!(contract.get_level(&name), 1);
    assert_eq!(contract.levelup(&name), "success");
    assert_eq!(contract.levelup(&name), "success");
    assert_eq!(contract.get_level(&name), 3);
    assert_eq!(contract.levelup(&"ghost".to_string()), "no animal");
    assert_eq!(contract.get_level(&"ghost".to_string()), 0);
}

#[test]
fn remove_undoes_add_first() {
    let mut contract = AnimalFight::new();
    let name = "rex".to_string();
    assert_eq!(contract.remove_animal(&signer()), "no chongwu");
    assert_eq!(contract.add_first(&signer(), &name), "success");
    assert_eq!(contract.remove_animal(&signer()), "success");
    assert_eq!(contract.get_all(&signer()), "NO pets");
    assert_eq!(contract.get_level(&name), 0);
    // the name and the account are free again
    assert_eq!(contract.add_first(&signer(), &name), "success");
}

#[test]
fn fights_compare_levels() {
    let mut contract = AnimalFight::new();
    let a = "rex".to_string();
    let b = "tom".to_string();
    let other = AccountId::parse("alice.near").unwrap();
    assert_eq!(contract.fight_with(&a, &b), "you have no animals");
    assert_eq!(contract.add_first(&signer(), &a), "success");
    assert_eq!(contract.fight_with(&a, &b), "you have no animals");
    assert_eq!(contract.add_first(&other, &b), "success");
    assert_eq!(contract.fight_with(&a, &a), "equal");
    assert_eq!(contract.levelup(&a), "success");
    assert_eq!(contract.fight_with(&a, &b), "you win");
    assert_eq!(contract.fight_with(&b, &a), "you lost");
}

#[test]
fn levelup_needs_a_deposit_of_ten() {
    assert_eq!(LEVELUP_MIN_DEPOSIT, 10);
    assert!(!levelup_deposit_is_enough(0));
    assert!(!levelup_deposit_is_enough(9));
    assert!(levelup_deposit_is_enough(10));
    assert!(levelup_deposit_is_enough(u128::MAX));
}
