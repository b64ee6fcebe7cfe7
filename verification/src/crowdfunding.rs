//! The crowdfunding platform: the contract owner opens campaigns, numbered
//! 1, 2, 3, ...; anyone joins a campaign by donating, which is recorded in the
//! campaign's totals and in its list of funders.

use vstd::prelude::*;
use crate::account::AccountId;

verus! {

/// What a campaign records.
pub struct CampaignView {
    pub theme: Seq<char>,
    pub receiver: Seq<char>,
    pub funding_goal: u32,
    pub number_funders: u32,
    pub total_amount: u128,
}

/// What a donation records.
pub struct FunderView {
    pub addr: Seq<char>,
    pub amount: u128,
}

/// The sum of the amounts of a list of donations.
pub open spec fn total_of(funders: Seq<FunderView>) -> int
    decreases funders.len(),
{
    if funders.len() == 0 {
        0
    } else {
        total_of(funders.drop_last()) + funders.last().amount
    }
}

/// The platform's state.
pub struct ContractView {
    /// the account allowed to open campaigns
    pub owner: Seq<char>,
    /// the number of the latest campaign (0 when there is none)
    pub num_campaigns: u32,
    /// campaign number -> campaign
    pub campaigns: Map<u32, CampaignView>,
    /// campaign number -> its donations, oldest first
    pub funders: Map<u32, Seq<FunderView>>,
    /// campaign number -> the count of funders it was opened with
    pub opening_funders: Map<u32, u32>,
}

impl ContractView {
    /// The platform as `init` leaves it.
    pub open spec fn init(owner: Seq<char>) -> ContractView {
        ContractView {
            owner,
            num_campaigns: 0,
            campaigns: Map::empty(),
            funders: Map::empty(),
            opening_funders: Map::empty(),
        }
    }

    /// Campaigns are numbered 1 to `num_campaigns`, each has a list of
    /// donations, its total is the sum of the donations and its count of
    /// funders is the count it was opened with plus the number of donations.
    pub open spec fn wf(self) -> bool {
        &&& forall|k: u32| #[trigger] self.campaigns.contains_key(k) <==> 1 <= k <= self.num_campaigns
        &&& forall|k: u32| #[trigger] self.funders.contains_key(k) <==> 1 <= k <= self.num_campaigns
        &&& forall|k: u32| #[trigger] self.opening_funders.contains_key(k) <==> 1 <= k <= self.num_campaigns
        &&& forall|k: u32| #[trigger] self.campaigns.contains_key(k)
            ==> self.campaigns[k].total_amount == total_of(self.funders[k])
        &&& forall|k: u32| #[trigger] self.campaigns.contains_key(k)
            ==> self.campaigns[k].number_funders == self.opening_funders[k] + self.funders[k].len()
    }

    /// Whether another campaign can be numbered.
    pub open spec fn can_open_campaign(self) -> bool {
        self.num_campaigns < u32::MAX
    }

    /// `newCampaign`: the new state and the new campaign's number.
    pub open spec fn new_campaign(
        self,
        theme: Seq<char>,
        receiver: Seq<char>,
        number_funders: u32,
        funding_goal: u32,
    ) -> (ContractView, u32) {
        let id = (self.num_campaigns + 1) as u32;
        (
            ContractView {
                owner: self.owner,
                num_campaigns: id,
                campaigns: self.campaigns.insert(
                    id,
                    CampaignView { theme, receiver, funding_goal, number_funders, total_amount: 0 },
                ),
                funders: self.funders.insert(id, Seq::empty()),
                opening_funders: self.opening_funders.insert(id, number_funders),
            },
            id,
        )
    }

    /// Whether a donation of `amount` to campaign `id` can be recorded: the
    /// campaign exists and neither its total, nor its count of funders, nor its
    /// list of donations overflows.
    pub open spec fn can_bid(self, id: u32, amount: u128) -> bool {
        &&& self.campaigns.contains_key(id)
        &&& self.campaigns[id].total_amount + amount <= u128::MAX
        &&& self.campaigns[id].number_funders < u32::MAX
        &&& self.funders[id].len() < u32::MAX
    }

    /// `bid`: the new state and the number of donations to the campaign.
    pub open spec fn bid(self, signer: Seq<char>, amount: u128, id: u32) -> (ContractView, u32) {
        let c = self.campaigns[id];
        let donations = self.funders[id].push(FunderView { addr: signer, amount });
        (
            ContractView {
                campaigns: self.campaigns.insert(
                    id,
                    CampaignView {
                        total_amount: (c.total_amount + amount) as u128,
                        number_funders: (c.number_funders + 1) as u32,
                        ..c
                    },
                ),
                funders: self.funders.insert(id, donations),
                ..self
            },
            donations.len() as u32,
        )
    }

    /// The platform whose campaigns, numbered from 1, are `campaigns` and whose
    /// donations are `funders`, as when restoring a saved platform; each
    /// campaign's opening count of funders is its count less its donations.
    pub open spec fn from_lists(
        owner: Seq<char>,
        campaigns: Seq<CampaignView>,
        funders: Seq<Seq<FunderView>>,
    ) -> ContractView {
        ContractView {
            owner,
            num_campaigns: campaigns.len() as u32,
            campaigns: Map::new(|k: u32| 1 <= k <= campaigns.len(), |k: u32| campaigns[k - 1]),
            funders: Map::new(|k: u32| 1 <= k <= campaigns.len(), |k: u32| funders[k - 1]),
            opening_funders: Map::new(
                |k: u32| 1 <= k <= campaigns.len(),
                |k: u32| (campaigns[k - 1].number_funders - funders[k - 1].len()) as u32,
            ),
        }
    }

    /// Whether saved lists describe a platform with balanced books: one list
    /// of donations per campaign, numbers that fit, each total the sum of its
    /// donations and each count of funders at least its number of donations.
    pub open spec fn restorable(campaigns: Seq<CampaignView>, funders: Seq<Seq<FunderView>>) -> bool {
        &&& campaigns.len() == funders.len()
        &&& campaigns.len() <= u32::MAX
        &&& forall|i: int| 0 <= i < campaigns.len()
            ==> #[trigger] campaigns[i].total_amount == total_of(funders[i])
        &&& forall|i: int| 0 <= i < campaigns.len()
            ==> #[trigger] campaigns[i].number_funders >= funders[i].len()
    }

    /// The campaigns, by number: the form in which they are saved.
    pub open spec fn saved_campaigns(self) -> Seq<CampaignView> {
        Seq::new(self.num_campaigns as nat, |i: int| self.campaigns[(i + 1) as u32])
    }

    /// The donations of each campaign, by number: the form in which they are
    /// saved.
    pub open spec fn saved_funders(self) -> Seq<Seq<FunderView>> {
        Seq::new(self.num_campaigns as nat, |i: int| self.funders[(i + 1) as u32])
    }
}


proof fn lemma_total_push(fs: Seq<FunderView>, f: FunderView)
    ensures
        total_of(fs.push(f)) == total_of(fs) + f.amount,
{
    assert(fs.push(f).drop_last() =~= fs);
}

/// Every operation keeps the books balanced: campaigns stay numbered 1 to
/// `num_campaigns`, and each campaign's total is the sum of its donations.
pub proof fn law_operations_keep_books_balanced(
    v: ContractView,
    owner: Seq<char>,
    theme: Seq<char>,
    receiver: Seq<char>,
    number_funders: u32,
    funding_goal: u32,
    signer: Seq<char>,
    amount: u128,
    id: u32,
)
    requires
        v.wf(),
    ensures
        ContractView::init(owner).wf(),
        v.can_open_campaign() ==> v.new_campaign(theme, receiver, number_funders, funding_goal).0.wf(),
        v.can_bid(id, amount) ==> v.bid(signer, amount, id).0.wf(),
{
    if v.can_open_campaign() {
        lemma_new_campaign_keeps_wf(v, theme, receiver, number_funders, funding_goal);
    }
    if v.can_bid(id, amount) {
        lemma_bid_keeps_wf(v, signer, amount, id);
    }
}

proof fn lemma_new_campaign_keeps_wf(
    v: ContractView,
    theme: Seq<char>,
    receiver: Seq<char>,
    number_funders: u32,
    funding_goal: u32,
)
    requires
        v.wf(),
        v.can_open_campaign(),
    ensures
        v.new_campaign(theme, receiver, number_funders, funding_goal).0.wf(),
{
    let w = v.new_campaign(theme, receiver, number_funders, funding_goal).0;
    assert(total_of(Seq::<FunderView>::empty()) == 0);
    assert forall|k: u32| #[trigger] w.campaigns.contains_key(k)
        implies w.campaigns[k].total_amount == total_of(w.funders[k]) by {
        if k != w.num_campaigns {
            assert(v.campaigns.contains_key(k));
        }
    }
    assert forall|k: u32| #[trigger] w.campaigns.contains_key(k)
        implies w.campaigns[k].number_funders == w.opening_funders[k] + w.funders[k].len() by {
        if k != w.num_campaigns {
            assert(v.campaigns.contains_key(k));
        }
    }
}

proof fn lemma_bid_keeps_wf(v: ContractView, signer: Seq<char>, amount: u128, id: u32)
    requires
        v.wf(),
        v.can_bid(id, amount),
    ensures
        v.bid(signer, amount, id).0.wf(),
{
    let w = v.bid(signer, amount, id).0;
    lemma_total_push(v.funders[id], FunderView { addr: signer, amount });
    assert forall|k: u32| #[trigger] w.campaigns.contains_key(k)
        implies w.campaigns[k].total_amount == total_of(w.funders[k]) by {
        assert(v.campaigns.contains_key(k));
    }
    assert forall|k: u32| #[trigger] w.campaigns.contains_key(k)
        implies w.campaigns[k].number_funders == w.opening_funders[k] + w.funders[k].len() by {
        assert(v.campaigns.contains_key(k));
    }
}

/// A new campaign gets the next number, starts with no donations and a total
/// of 0, and leaves the owner and the earlier campaigns as they were.
pub proof fn law_new_campaign_gets_next_number(
    v: ContractView,
    theme: Seq<char>,
    receiver: Seq<char>,
    number_funders: u32,
    funding_goal: u32,
    k: u32,
)
    requires
        v.wf(),
        v.can_open_campaign(),
    ensures
        ({
            let (w, id) = v.new_campaign(theme, receiver, number_funders, funding_goal);
            &&& id == v.num_campaigns + 1
            &&& w.num_campaigns == id
            &&& w.owner == v.owner
            &&& !v.campaigns.contains_key(id)
            &&& w.campaigns[id] == CampaignView {
                theme,
                receiver,
                funding_goal,
                number_funders,
                total_amount: 0,
            }
            &&& w.funders[id] == Seq::<FunderView>::empty()
            &&& w.opening_funders[id] == number_funders
            &&& v.campaigns.contains_key(k) ==> w.campaigns[k] == v.campaigns[k] && w.funders[k]
                == v.funders[k] && w.opening_funders[k] == v.opening_funders[k]
        }),
{
}

/// A donation is appended to the campaign's donations, its number is the
/// value `bid` answers, the campaign's total grows by the amount and its count
/// of funders by one; every other campaign is left as it was.
pub proof fn law_bid_records_donation(v: ContractView, signer: Seq<char>, amount: u128, id: u32, k: u32)
    requires
        v.wf(),
        v.can_bid(id, amount),
    ensures
        ({
            let (w, n) = v.bid(signer, amount, id);
            &&& w.funders[id] == v.funders[id].push(FunderView { addr: signer, amount })
            &&& n == w.funders[id].len()
            &&& w.funders[id][n - 1] == FunderView { addr: signer, amount }
            &&& w.campaigns[id].total_amount == v.campaigns[id].total_amount + amount
            &&& w.campaigns[id].number_funders == v.campaigns[id].number_funders + 1
            &&& w.campaigns[id].theme == v.campaigns[id].theme
            &&& w.campaigns[id].receiver == v.campaigns[id].receiver
            &&& w.campaigns[id].funding_goal == v.campaigns[id].funding_goal
            &&& w.num_campaigns == v.num_campaigns
            &&& w.owner == v.owner
            &&& w.opening_funders == v.opening_funders
            &&& k != id ==> w.campaigns[k] == v.campaigns[k] && w.funders[k] == v.funders[k]
        }),
{
}

/// Donations are never lost: in every state reached from `init`, the total of
/// each campaign is the sum of the donations recorded for it, and its count of
/// funders is the count it was opened with plus its number of donations.
pub proof fn law_total_is_sum_of_donations(v: ContractView, k: u32)
    requires
        v.wf(),
        v.campaigns.contains_key(k),
    ensures
        v.campaigns[k].total_amount == total_of(v.funders[k]),
        v.campaigns[k].number_funders == v.opening_funders[k] + v.funders[k].len(),
{
}

/// A donation can be recorded exactly when the campaign exists and neither
/// its total, nor its count of funders, nor its list of donations would
/// overflow: there is no other limit on funders or amounts.
pub proof fn law_bids_are_limited_only_by_overflow(v: ContractView, id: u32, amount: u128)
    ensures
        v.can_bid(id, amount) == (v.campaigns.contains_key(id)
            && v.campaigns[id].total_amount + amount <= u128::MAX
            && v.campaigns[id].number_funders < u32::MAX
            && v.funders[id].len() < u32::MAX),
{
}

/// Another campaign can be opened exactly when its number fits in a `u32`:
/// there is no other limit on the number of campaigns.
pub proof fn law_campaigns_are_limited_only_by_numbering(v: ContractView)
    ensures
        v.can_open_campaign() == (v.num_campaigns < u32::MAX),
        v.can_open_campaign() ==> v.new_campaign(Seq::empty(), Seq::empty(), 0, 0).1 == v.num_campaigns + 1,
{
}

/// A new platform belongs to the given owner and has no campaigns.
pub proof fn law_new_platform_is_empty(owner: Seq<char>, k: u32)
    ensures
        ContractView::init(owner).owner == owner,
        ContractView::init(owner).num_campaigns == 0,
        !ContractView::init(owner).campaigns.contains_key(k),
        !ContractView::init(owner).funders.contains_key(k),
        ContractView::init(owner).can_open_campaign(),
{
}

proof fn lemma_total_prefix(fs: Seq<FunderView>, n: int)
    requires
        0 <= n <= fs.len(),
    ensures
        total_of(fs.take(n)) <= total_of(fs),
    decreases fs.len() - n,
{
    if n < fs.len() {
        lemma_total_prefix(fs, n + 1);
        assert(fs.take(n + 1).drop_last() =~= fs.take(n));
    } else {
        assert(fs.take(n) =~= fs);
    }
}

/// Restoring lists that describe a platform with balanced books gives one.
pub proof fn law_restored_platform_is_balanced(
    owner: Seq<char>,
    campaigns: Seq<CampaignView>,
    funders: Seq<Seq<FunderView>>,
)
    requires
        ContractView::restorable(campaigns, funders),
    ensures
        ContractView::from_lists(owner, campaigns, funders).wf(),
{
    let v = ContractView::from_lists(owner, campaigns, funders);
    assert forall|k: u32| #[trigger] v.campaigns.contains_key(k)
        implies v.campaigns[k].total_amount == total_of(v.funders[k]) by {
        assert(campaigns[k - 1].total_amount == total_of(funders[k - 1]));
    }
    assert forall|k: u32| #[trigger] v.campaigns.contains_key(k)
        implies v.campaigns[k].number_funders == v.opening_funders[k] + v.funders[k].len() by {
        assert(campaigns[k - 1].number_funders >= funders[k - 1].len());
    }
}


/// Saving a platform as its campaigns and their donations, by number, and
/// restoring it gives back the same platform.
pub proof fn law_saved_platform_restores(v: ContractView)
    requires
        v.wf(),
    ensures
        ContractView::restorable(v.saved_campaigns(), v.saved_funders()),
        ContractView::from_lists(v.owner, v.saved_campaigns(), v.saved_funders()) == v,
{
    let cs = v.saved_campaigns();
    let fs = v.saved_funders();
    assert forall|i: int| 0 <= i < cs.len() implies #[trigger] cs[i].total_amount == total_of(fs[i]) by {
        assert(v.campaigns.contains_key((i + 1) as u32));
    }
    assert forall|i: int| 0 <= i < cs.len() implies #[trigger] cs[i].number_funders >= fs[i].len() by {
        assert(v.campaigns.contains_key((i + 1) as u32));
    }
    let w = ContractView::from_lists(v.owner, cs, fs);
    assert(w.campaigns =~= v.campaigns);
    assert(w.funders =~= v.funders);
    assert forall|k: u32| #[trigger] w.opening_funders.contains_key(k)
        implies w.opening_funders[k] == v.opening_funders[k] by {
        assert(v.campaigns.contains_key(k));
    }
    assert(w.opening_funders =~= v.opening_funders);
}

/// A crowdfunding campaign.
#[derive(Debug)]
pub struct CrowdFunding {
    theme: String,
    pub receiver: AccountId,
    funding_goal: u32,
    number_funders: u32,
    total_amount: u128,
}

impl View for CrowdFunding {
    type V = CampaignView;

    closed spec fn view(&self) -> CampaignView {
        CampaignView {
            theme: self.theme@,
            receiver: self.receiver@,
            funding_goal: self.funding_goal,
            number_funders: self.number_funders,
            total_amount: self.total_amount,
        }
    }
}

impl CrowdFunding {
    /// A campaign with no money raised yet.
    pub fn new(theme: String, receiver: AccountId, number_funders: u32, funding_goal: u32) -> (c: CrowdFunding)
        ensures
            c@ == (CampaignView {
                theme: theme@,
                receiver: receiver@,
                funding_goal,
                number_funders,
                total_amount: 0,
            }),
    {
        let total_amount: u128 = 0;
        CrowdFunding { theme, receiver, number_funders, funding_goal, total_amount }
    }

    /// A campaign with the given counts and totals, as when restoring a saved
    /// platform.
    pub fn with_totals(
        theme: String,
        receiver: AccountId,
        funding_goal: u32,
        number_funders: u32,
        total_amount: u128,
    ) -> (c: CrowdFunding)
        ensures
            c@ == (CampaignView {
                theme: theme@,
                receiver: receiver@,
                funding_goal,
                number_funders,
                total_amount,
            }),
    {
        CrowdFunding { theme, receiver, funding_goal, number_funders, total_amount }
    }

    /// The account receiving the campaign's donations.
    pub fn receiver(&self) -> (r: &AccountId)
        ensures
            r@ == self@.receiver,
    {
        &self.receiver
    }

    /// The campaign's theme.
    pub fn theme(&self) -> (s: &String)
        ensures
            s@ == self@.theme,
    {
        &self.theme
    }

    /// The amount the campaign aims to raise.
    pub fn funding_goal(&self) -> (g: u32)
        ensures
            g == self@.funding_goal,
    {
        self.funding_goal
    }

    /// The campaign's count of funders.
    pub fn number_funders(&self) -> (n: u32)
        ensures
            n == self@.number_funders,
    {
        self.number_funders
    }

    /// The amount raised so far.
    pub fn total_amount(&self) -> (t: u128)
        ensures
            t == self@.total_amount,
    {
        self.total_amount
    }
}

/// A donation to a campaign.
#[derive(Debug)]
pub struct Funder {
    addr: AccountId,
    amount: u128,
}

impl View for Funder {
    type V = FunderView;

    closed spec fn view(&self) -> FunderView {
        FunderView { addr: self.addr@, amount: self.amount }
    }
}

impl Funder {
    /// A donation of `amount` by `addr`.
    pub fn new(addr: AccountId, amount: u128) -> (f: Funder)
        ensures
            f@ == (FunderView { addr: addr@, amount }),
    {
        Self { addr, amount }
    }

    /// The donor.
    pub fn addr(&self) -> (a: &AccountId)
        ensures
            a@ == self@.addr,
    {
        &self.addr
    }

    /// The amount donated.
    pub fn amount(&self) -> (a: u128)
        ensures
            a == self@.amount,
    {
        self.amount
    }
}

/// The crowdfunding contract.
pub struct Contract {
    owner_id: AccountId,
    num_campagins: u32,
    /// campaign `k` is at position `k - 1`
    campaigns: Vec<CrowdFunding>,
    /// the donations to campaign `k` are at position `k - 1`
    funders: Vec<Vec<Funder>>,
    /// the count of funders campaign `k` was opened with is at position `k - 1`
    opening_funders: Ghost<Seq<u32>>,
}

impl View for Contract {
    type V = ContractView;

    closed spec fn view(&self) -> ContractView {
        ContractView {
            owner: self.owner_id@,
            num_campaigns: self.num_campagins,
            campaigns: Map::new(
                |k: u32| 1 <= k <= self.num_campagins,
                |k: u32| self.campaigns@[k - 1]@,
            ),
            funders: Map::new(
                |k: u32| 1 <= k <= self.num_campagins,
                |k: u32| self.funders@[k - 1]@.map_values(|f: Funder| f@),
            ),
            opening_funders: Map::new(
                |k: u32| 1 <= k <= self.num_campagins,
                |k: u32| self.opening_funders@[k - 1],
            ),
        }
    }
}

impl Contract {
    /// The representation is sound and the books balanced.
    pub closed spec fn wf(&self) -> bool {
        &&& self.campaigns@.len() == self.num_campagins
        &&& self.funders@.len() == self.num_campagins
        &&& self.opening_funders@.len() == self.num_campagins
        &&& self@.wf()
    }

    /// A well-formed platform has balanced books, so the laws over
    /// `ContractView` apply to it.
    pub proof fn lemma_consistent(&self)
        requires
            self.wf(),
        ensures
            self@.wf(),
    {
    }

    /// A platform owned by `owner_id`, with no campaigns.
    pub fn init(owner_id: AccountId) -> (c: Contract)
        ensures
            c.wf(),
            c@ == ContractView::init(owner_id@),
    {
        let c = Contract {
            owner_id,
            num_campagins: 0,
            campaigns: Vec::new(),
            funders: Vec::new(),
            opening_funders: Ghost(Seq::empty()),
        };
        proof {
            assert(c@.opening_funders =~= Map::empty());
            assert(c@.campaigns =~= Map::empty());
            assert(c@.funders =~= Map::empty());
        }
        c
    }

    /// The sum of the donations, or `None` when it exceeds `u128::MAX`.
    fn sum_of_donations(donations: &Vec<Funder>) -> (sum: Option<u128>)
        ensures
            ({
                let fs = donations@.map_values(|f: Funder| f@);
                &&& sum is Some <==> total_of(fs) <= u128::MAX
                &&& sum matches Some(t) ==> t == total_of(fs)
            }),
    {
        let ghost fs = donations@.map_values(|f: Funder| f@);
        let mut sum: u128 = 0;
        let mut i: usize = 0;
        proof {
            assert(fs.take(0) =~= Seq::<FunderView>::empty());
        }
        while i < donations.len()
            invariant
                i <= donations@.len(),
                fs == donations@.map_values(|f: Funder| f@),
                sum == total_of(fs.take(i as int)),
            decreases donations@.len() - i,
        {
            proof {
                assert(fs.take(i + 1).drop_last() =~= fs.take(i as int));
                assert(fs.take(i + 1).last() == donations@[i as int]@);
            }
            match sum.checked_add(donations[i].amount) {
                Some(t) => sum = t,
                None => {
                    proof {
                        lemma_total_prefix(fs, i + 1);
                    }
                    return None;
                },
            }
            i = i + 1;
        }
        proof {
            assert(fs.take(donations@.len() as int) =~= fs);
        }
        Some(sum)
    }

    /// Rebuilds a saved platform owned by `owner_id` from its campaigns,
    /// numbered from 1, and their donations; `None` unless the books balance.
    pub fn restore(owner_id: AccountId, campaigns: Vec<CrowdFunding>, funders: Vec<Vec<Funder>>) -> (c: Option<Contract>)
        ensures
            ({
                let cs = campaigns@.map_values(|c: CrowdFunding| c@);
                let fs = funders@.map_values(|d: Vec<Funder>| d@.map_values(|f: Funder| f@));
                &&& c is Some <==> ContractView::restorable(cs, fs)
                &&& c matches Some(c) ==> c.wf() && c@ == ContractView::from_lists(owner_id@, cs, fs)
            }),
    {
        let ghost cs = campaigns@.map_values(|c: CrowdFunding| c@);
        let ghost fs = funders@.map_values(|d: Vec<Funder>| d@.map_values(|f: Funder| f@));
        if campaigns.len() != funders.len() || campaigns.len() > u32::MAX as usize {
            return None;
        }
        let mut i: usize = 0;
        while i < campaigns.len()
            invariant
                i <= campaigns@.len(),
                campaigns@.len() == funders@.len(),
                cs == campaigns@.map_values(|c: CrowdFunding| c@),
                fs == funders@.map_values(|d: Vec<Funder>| d@.map_values(|f: Funder| f@)),
                forall|j: int| 0 <= j < i ==> #[trigger] cs[j].total_amount == total_of(fs[j]),
                forall|j: int| 0 <= j < i ==> #[trigger] cs[j].number_funders >= fs[j].len(),
            decreases campaigns@.len() - i,
        {
            let balanced = match Self::sum_of_donations(&funders[i]) {
                Some(t) => t == campaigns[i].total_amount,
                None => false,
            };
            if !balanced || (campaigns[i].number_funders as usize) < funders[i].len() {
                proof {
                    assert(cs[i as int] == campaigns@[i as int]@);
                    assert(fs[i as int] == funders@[i as int]@.map_values(|f: Funder| f@));
                    if !balanced {
                        assert(cs[i as int].total_amount != total_of(fs[i as int]));
                    } else {
                        assert(fs[i as int].len() == funders@[i as int]@.len());
                        assert(cs[i as int].number_funders < fs[i as int].len());
                    }
                    assert(!ContractView::restorable(cs, fs));
                }
                return None;
            }
            i = i + 1;
        }
        let num_campagins = campaigns.len() as u32;
        let c = Contract {
            owner_id,
            num_campagins,
            campaigns,
            funders,
            opening_funders: Ghost(
                Seq::new(cs.len(), |i: int| (cs[i].number_funders - fs[i].len()) as u32),
            ),
        };
        proof {
            let v = ContractView::from_lists(c.owner_id@, cs, fs);
            assert(c@.campaigns =~= v.campaigns);
            assert forall|k: u32| #[trigger] c@.funders.contains_key(k)
                implies c@.funders[k] == v.funders[k] by {
                assert(c@.funders[k] =~= v.funders[k]);
            }
            assert(c@.funders =~= v.funders);
            assert(c@.opening_funders =~= v.opening_funders);
            law_restored_platform_is_balanced(c.owner_id@, cs, fs);
        }
        Some(c)
    }

    /// Whether `account` owns the platform.
    pub fn is_owner(&self, account: &AccountId) -> (r: bool)
        ensures
            r == (account@ == self@.owner),
    {
        account.same_as(&self.owner_id)
    }

    /// Whether another campaign can be numbered.
    pub fn can_open_campaign(&self) -> (r: bool)
        ensures
            r == self@.can_open_campaign(),
    {
        self.num_campagins < u32::MAX
    }

    /// Opens a campaign for `receiver` and answers its number, the next after
    /// the latest. Only the owner, calling as `predecessor`, may do so.
    #[allow(non_snake_case)]
    pub fn newCampaign(
        &mut self,
        predecessor: &AccountId,
        theme: String,
        receiver: AccountId,
        number_funders: u32,
        funding_goal: u32,
    ) -> (id: Option<u32>)
        requires
            old(self).wf(),
            predecessor@ == old(self)@.owner,
            old(self)@.can_open_campaign(),
        ensures
            final(self).wf(),
            ({
                let (w, n) = old(self)@.new_campaign(theme@, receiver@, number_funders, funding_goal);
                final(self)@ == w && id == Some(n)
            }),
    {
        let ghost pre = self@;
        proof {
            lemma_new_campaign_keeps_wf(pre, theme@, receiver@, number_funders, funding_goal);
        }
        let ghost old_funders = self.funders@;
        self.num_campagins = self.num_campagins + 1;
        let crowd_funding = CrowdFunding::new(theme, receiver, number_funders, funding_goal);
        self.campaigns.push(crowd_funding);
        self.funders.push(Vec::new());
        self.opening_funders = Ghost(self.opening_funders@.push(number_funders));
        proof {
            let post = pre.new_campaign(theme@, receiver@, number_funders, funding_goal).0;
            assert(self@.campaigns =~= post.campaigns);
            assert forall|k: u32| #[trigger] self@.funders.contains_key(k)
                implies self@.funders[k] == post.funders[k] by {
                if k == self.num_campagins {
                    assert(self@.funders[k] =~= Seq::<FunderView>::empty());
                } else {
                    assert(self.funders@[k - 1] == old_funders[k - 1]);
                }
            }
            assert(self@.funders =~= post.funders);
            assert(self@.opening_funders =~= post.opening_funders);
        }
        Some(self.num_campagins)
    }

    /// Whether a donation of `attached_deposit` to campaign `num_campagins`
    /// can be recorded.
    pub fn can_bid(&self, num_campagins: u32, attached_deposit: u128) -> (r: bool)
        requires
            self.wf(),
        ensures
            r == self@.can_bid(num_campagins, attached_deposit),
    {
        if num_campagins < 1 || num_campagins > self.num_campagins {
            return false;
        }
        let i = (num_campagins - 1) as usize;
        let c = &self.campaigns[i];
        c.total_amount <= u128::MAX - attached_deposit && c.number_funders < u32::MAX
            && self.funders[i].len() < u32::MAX as usize
    }

    /// Records a donation of `attached_deposit` by `signer` to campaign
    /// `num_campagins` and answers how many donations the campaign has now.
    pub fn bid(&mut self, signer: AccountId, attached_deposit: u128, num_campagins: u32) -> (n: u32)
        requires
            old(self).wf(),
            old(self)@.can_bid(num_campagins, attached_deposit),
        ensures
            final(self).wf(),
            ({
                let (w, m) = old(self)@.bid(signer@, attached_deposit, num_campagins);
                final(self)@ == w && n == m
            }),
    {
        let ghost pre = self@;
        let ghost signer_view = signer@;
        let ghost old_funders = self.funders@;
        proof {
            lemma_bid_keeps_wf(pre, signer@, attached_deposit, num_campagins);
        }
        let i = (num_campagins - 1) as usize;
        let mut crowd_funding = self.campaigns.remove(i);
        crowd_funding.total_amount = crowd_funding.total_amount + attached_deposit;
        crowd_funding.number_funders = crowd_funding.number_funders + 1;
        self.campaigns.insert(i, crowd_funding);
        let mut funders = self.funders.remove(i);
        let funder = Funder::new(signer, attached_deposit);
        funders.push(funder);
        let len = funders.len() as u32;
        self.funders.insert(i, funders);
        proof {
            let post = pre.bid(signer_view, attached_deposit, num_campagins).0;
            assert(self@.campaigns =~= post.campaigns);
            assert forall|k: u32| #[trigger] self@.funders.contains_key(k)
                implies self@.funders[k] == post.funders[k] by {
                if k == num_campagins {
                    assert(self@.funders[k] =~= post.funders[k]);
                } else {
                    assert(self.funders@[k - 1] == old_funders[k - 1]);
                }
            }
            assert(self@.funders.dom() =~= post.funders.dom());
            assert(self@.funders =~= post.funders);
        }
        len
    }

    /// The owner of the platform.
    pub fn get_contract_owner_id(&self) -> (owner: Option<&AccountId>)
        ensures
            owner matches Some(o) && o@ == self@.owner,
    {
        Some(&self.owner_id)
    }

    /// Campaign number `num_campagins`, if there is one.
    #[allow(non_snake_case)]
    pub fn get_crowdFunding_by_num_campagins(&self, num_campagins: u32) -> (c: Option<&CrowdFunding>)
        requires
            self.wf(),
        ensures
            c is Some <==> self@.campaigns.contains_key(num_campagins),
            c matches Some(c) ==> c@ == self@.campaigns[num_campagins],
    {
        if num_campagins >= 1 && num_campagins <= self.num_campagins {
            Some(&self.campaigns[(num_campagins - 1) as usize])
        } else {
            None
        }
    }

    /// All campaigns, by number.
    #[allow(non_snake_case)]
    pub fn get_all_crowdFunding(&self) -> (all: Option<Vec<&CrowdFunding>>)
        requires
            self.wf(),
        ensures
            all matches Some(v) && v@.len() == self@.num_campaigns && (forall|i: int|
                0 <= i < v@.len() ==> #[trigger] v@[i]@ == self@.campaigns[(i + 1) as u32]),
    {
        let mut all: Vec<&CrowdFunding> = Vec::new();
        let mut i: usize = 0;
        while i < self.campaigns.len()
            invariant
                self.wf(),
                i <= self.campaigns@.len(),
                all@.len() == i,
                forall|j: int| 0 <= j < i ==> #[trigger] all@[j]@ == self.campaigns@[j]@,
            decreases self.campaigns@.len() - i,
        {
            all.push(&self.campaigns[i]);
            i = i + 1;
        }
        proof {
            assert forall|j: int| 0 <= j < all@.len() implies #[trigger] all@[j]@ == self@.campaigns[(j + 1) as u32] by {
                assert(self@.campaigns.contains_key((j + 1) as u32));
            }
        }
        Some(all)
    }

    /// The donations to campaign `num_campagins`, oldest first, if there is
    /// such a campaign.
    #[allow(non_snake_case)]
    pub fn get_funders_by_num_campagins(&self, num_campagins: u32) -> (funders: Option<Vec<&Funder>>)
        requires
            self.wf(),
        ensures
            funders is Some <==> self@.funders.contains_key(num_campagins),
            funders matches Some(v) ==> v@.len() == self@.funders[num_campagins].len() && (forall|i: int|
                0 <= i < v@.len() ==> #[trigger] v@[i]@ == self@.funders[num_campagins][i]),
    {
        if num_campagins < 1 || num_campagins > self.num_campagins {
            return None;
        }
        let donations = &self.funders[(num_campagins - 1) as usize];
        let mut funder_vec: Vec<&Funder> = Vec::new();
        let mut i: usize = 0;
        while i < donations.len()
            invariant
                i <= donations@.len(),
                funder_vec@.len() == i,
                forall|j: int| 0 <= j < i ==> #[trigger] funder_vec@[j]@ == donations@[j]@,
            decreases donations@.len() - i,
        {
            funder_vec.push(&donations[i]);
            i = i + 1;
        }
        Some(funder_vec)
    }
}

} // verus!
