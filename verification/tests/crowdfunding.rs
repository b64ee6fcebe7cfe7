use fight::account::AccountId;
use fight::crowdfunding::{Contract, CrowdFunding, Funder};

// the contract's account
fn contract_owner() -> AccountId {
    AccountId::parse("contract_owner.near").unwrap()
}

// accounts receiving the donations of the campaigns
fn campaign_receiver1() -> AccountId {
    AccountId::parse("campaign_receiver1.near").unwrap()
}
fn campaign_receiver2() -> AccountId {
    AccountId::parse("campaign_receiver2.near").unwrap()
}

fn funder_addr1() -> AccountId {
    AccountId::parse("funder_addr1.near").unwrap()
}
fn funder_addr2() -> AccountId {
    AccountId::parse("funder_addr2.near").unwrap()
}
fn funder_addr3() -> AccountId {
    AccountId::parse("funder_addr3.near").unwrap()
}

#[test]
fn test_init_process() {
    // step 1: the contract, called by its owner; the first donor is
    // funder_addr1 with a deposit of 8
    let mut contract = Contract::init(contract_owner());
    let owner_id: Option<&AccountId> = contract.get_contract_owner_id();
    println!("owner_id: {:?}", owner_id);
    assert_eq!(owner_id.unwrap().as_str(), "contract_owner.near");

    // step 2: two campaigns
    let num_campaign1: Option<u32> = contract.newCampaign(
        &contract_owner(),
        String::from("涿州水灾募捐活动"),
        campaign_receiver1(),
        0_u32,
        100_u32,
    );
    assert_eq!(num_campaign1.unwrap(), 1, "第1个募捐活动编号错误！");

    let opt_crowd_funding1 = contract.get_crowdFunding_by_num_campagins(num_campaign1.unwrap());
    let crowd_funding1 = opt_crowd_funding1.unwrap();
    assert_eq!(
        crowd_funding1.receiver.as_str(),
        "campaign_receiver1.near",
        "第1个募捐活动，接收账户错误！"
    );

    let num_campaign2: Option<u32> = contract.newCampaign(
        &contract_owner(),
        String::from("流浪动物救助募捐活动"),
        campaign_receiver2(),
        0_u32,
        500_u32,
    );
    assert_eq!(num_campaign2.unwrap(), 2, "第2个募捐活动编号错误！");

    let opt_crowd_funding2 = contract.get_crowdFunding_by_num_campagins(num_campaign2.unwrap());
    let crowd_funding2 = opt_crowd_funding2.unwrap();
    assert_eq!(
        crowd_funding2.receiver.as_str(),
        "campaign_receiver2.near",
        "第2个募捐活动，接收账户错误！"
    );

    // step 3: two donors join campaign 1
    let funder_number = contract.bid(funder_addr1(), 8, num_campaign1.unwrap());
    assert_eq!(funder_number, 1, "用户参与募捐活动1失败！");
    if funder_number > 0 {
        let funders = contract
            .get_funders_by_num_campagins(num_campaign1.unwrap())
            .unwrap();
        assert_eq!(funders.len(), 1);
        let v_iter = funders.iter();
        for val in v_iter {
            assert_eq!(*val.addr(), funder_addr1());
        }
    }
    // the second donor, with a deposit of 9
    let funder_number = contract.bid(funder_addr2(), 9, num_campaign1.unwrap());
    assert_eq!(funder_number, 2, "用户参与募捐活动1失败！");

    // the third donor, with a deposit of 50, joins campaign 2
    let funder_number = contract.bid(funder_addr3(), 50, num_campaign2.unwrap());
    assert_eq!(funder_number, 1, "用户参与募捐活动2失败！");

    // step 4: all campaigns
    let crowd_funding_vec = contract.get_all_crowdFunding();
    assert_eq!(crowd_funding_vec.unwrap().len(), 2, "募捐活动个数不对！");

    // step 5: all campaigns and their donors
    let owner_id = contract.get_contract_owner_id().unwrap();
    println!("合约账号：{:?}", owner_id.as_str());
    let campaigns = contract.get_all_crowdFunding().unwrap();
    for (i, campaign) in campaigns.iter().enumerate() {
        println!(
            "【{}】合约接收账户：{}, 目标募集数量：{}near, 参与人数：{}人, 当前已筹集：{} yocto.",
            campaign.theme(),
            campaign.receiver.as_str(),
            campaign.funding_goal(),
            campaign.number_funders(),
            campaign.total_amount()
        );
        let opt_funders = contract.get_funders_by_num_campagins(i as u32 + 1);
        if opt_funders.is_some() {
            for funder in opt_funders.unwrap() {
                println!(
                    "     --->【募捐人】账户：{}, 捐赠：{} yocto.",
                    funder.addr().as_str(),
                    funder.amount()
                );
            }
        }
        println!()
    }
}

#[test]
fn donations_add_up_per_campaign() {
    let mut contract = Contract::init(contract_owner());
    assert_eq!(contract.newCampaign(&contract_owner(), "a".to_string(), campaign_receiver1(), 0, 100), Some(1));
    assert_eq!(contract.newCampaign(&contract_owner(), "b".to_string(), campaign_receiver2(), 5, 500), Some(2));
    assert_eq!(contract.bid(funder_addr1(), 8, 1), 1);
    assert_eq!(contract.bid(funder_addr2(), 9, 1), 2);
    assert_eq!(contract.bid(funder_addr3(), 50, 2), 1);

    let c1 = contract.get_crowdFunding_by_num_campagins(1).unwrap();
    assert_eq!(c1.total_amount(), 17);
    assert_eq!(c1.number_funders(), 2);
    assert_eq!(c1.funding_goal(), 100);
    assert_eq!(c1.theme(), "a");

    // the count of funders starts from the value the campaign was opened with
    let c2 = contract.get_crowdFunding_by_num_campagins(2).unwrap();
    assert_eq!(c2.total_amount(), 50);
    assert_eq!(c2.number_funders(), 6);

    let donations = contract.get_funders_by_num_campagins(1).unwrap();
    assert_eq!(donations.len(), 2);
    assert_eq!(*donations[0].addr(), funder_addr1());
    assert_eq!(donations[0].amount(), 8);
    assert_eq!(*donations[1].addr(), funder_addr2());
    assert_eq!(donations[1].amount(), 9);
}

#[test]
fn unknown_campaigns_are_absent() {
    let mut contract = Contract::init(contract_owner());
    assert!(contract.get_crowdFunding_by_num_campagins(0).is_none());
    assert!(contract.get_crowdFunding_by_num_campagins(1).is_none());
    assert!(contract.get_funders_by_num_campagins(1).is_none());
    assert_eq!(contract.get_all_crowdFunding().unwrap().len(), 0);
    assert!(!contract.can_bid(1, 8));
    contract.newCampaign(&contract_owner(), "a".to_string(), campaign_receiver1(), 0, 100);
    assert!(contract.can_bid(1, 8));
    assert!(!contract.can_bid(2, 8));
    assert!(contract.get_crowdFunding_by_num_campagins(2).is_none());
    assert_eq!(contract.get_funders_by_num_campagins(1).unwrap().len(), 0);
    assert_eq!(contract.get_crowdFunding_by_num_campagins(1).unwrap().total_amount(), 0);
}

#[test]
fn bids_that_would_overflow_are_refused() {
    let mut contract = Contract::init(contract_owner());
    contract.newCampaign(&contract_owner(), "a".to_string(), campaign_receiver1(), u32::MAX, 100);
    // the count of funders is already at its limit
    assert!(!contract.can_bid(1, 1));
    contract.newCampaign(&contract_owner(), "b".to_string(), campaign_receiver1(), 0, 100);
    assert!(contract.can_bid(2, u128::MAX));
    contract.bid(funder_addr1(), u128::MAX, 2);
    assert!(!contract.can_bid(2, 1));
    assert!(contract.can_bid(2, 0));
}

#[test]
fn only_the_owner_opens_campaigns() {
    let contract = Contract::init(contract_owner());
    assert!(contract.is_owner(&contract_owner()));
    assert!(!contract.is_owner(&funder_addr1()));
    assert!(contract.can_open_campaign());
}

#[test]
fn records_are_built_from_their_parts() {
    let c = CrowdFunding::new("t".to_string(), campaign_receiver1(), 3, 40);
    assert_eq!(c.theme(), "t");
    assert_eq!(c.receiver, campaign_receiver1());
    assert_eq!(*c.receiver(), campaign_receiver1());
    assert_eq!(c.number_funders(), 3);
    assert_eq!(c.funding_goal(), 40);
    assert_eq!(c.total_amount(), 0);
    let f = Funder::new(funder_addr1(), 7);
    assert_eq!(*f.addr(), funder_addr1());
    assert_eq!(f.amount(), 7);
}
