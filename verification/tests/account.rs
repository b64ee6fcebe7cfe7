use fight::account::AccountId;

#[test]
fn valid_account_ids_parse() {
    for id in ["aa", "bob_near", "dd2.test", "contract_owner.near", "a-b.c_d", "100", "0o0ooo00oo00o"] {
        let parsed = AccountId::parse(id).unwrap();
        assert_eq!(parsed.as_str(), id);
        assert_eq!(parsed.text(), id);
    }
    let longest = "a".repeat(64);
    assert_eq!(AccountId::parse(&longest).unwrap().as_str(), longest);
}

#[test]
fn invalid_account_ids_are_refused() {
    for id in ["", "a", "Alice.near", "a..b", "-a", "a-", ".a", "a b", "a@b", "ñandú", "a_-b"] {
        assert!(AccountId::parse(id).is_none(), "{}", id);
    }
    assert!(AccountId::parse(&"a".repeat(65)).is_none());
}

#[test]
fn accounts_compare_by_text() {
    let a = AccountId::parse("alice.near").unwrap();
    let b = AccountId::parse("alice.near").unwrap();
    let c = AccountId::parse("bob.near").unwrap();
    assert!(a.same_as(&b));
    assert!(!a.same_as(&c));
    assert_eq!(a.clone(), b);
}
