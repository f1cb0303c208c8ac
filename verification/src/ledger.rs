use vstd::prelude::*;
use crate::campaign::{donation_recorded, view_matches, Campaign, CampaignView};
use crate::errors::LedgerError;
use crate::token::{NftToken, TokenMetadata};
use crate::amount::{spec_creator_share, spec_platform_share, split_donation};
use crate::decimal::{dec_rep, u128_to_dec};

verus! {

/// Minimum payment that must accompany the creation of a campaign,
/// in the smallest unit of the native currency.
pub const CAMPAIGN_CREATION_FEE: u128 = 10_000_000_000_000_000_000_000;

/// A requested outbound value transfer. The ledger never moves funds
/// itself: it hands these requests to the host layer, and its own state
/// stays authoritative whatever becomes of them.
#[derive(Debug, PartialEq, Eq)]
pub struct Transfer {
    pub to: String,
    pub amount: u128,
}

/// The persistent ledger: crowdfunding campaigns, the collectible
/// registry, the access-grant table, and the platform fee wallet.
///
/// Campaigns and tokens are arena-style stores: the record with
/// identifier `i` sits at index `i`, identifiers are handed out by the
/// monotonic counters and are never reused.
pub struct Crowdfunding {
    pub campaigns: Vec<Campaign>,
    pub next_campaign_id: u64,
    pub platform_wallet: String,
    pub tokens: Vec<NftToken>,
    pub next_token_id: u64,
    pub access_rights: Vec<(u64, String)>,
}

/// Existing access grants are never revoked: whatever `pre` granted,
/// `post` still grants.
pub open spec fn access_preserved(pre: Crowdfunding, post: Crowdfunding) -> bool {
    forall|t: u64, a: Seq<char>| #[trigger] pre.spec_has_access(t, a) ==> post.spec_has_access(t, a)
}

impl Crowdfunding {
    /// Representation invariant: the counters agree with the arenas,
    /// and every stored record is well-formed.
    pub open spec fn wf(self) -> bool {
        &&& self.next_campaign_id == self.campaigns@.len()
        &&& self.next_token_id == self.tokens@.len()
        &&& forall|i: int|
            0 <= i < self.campaigns@.len() ==> (#[trigger] self.campaigns@[i]).wf()
        &&& forall|i: int| 0 <= i < self.tokens@.len() ==> (#[trigger] self.tokens@[i]).wf()
    }

    /// Whether an access grant is on record for this token and account.
    pub open spec fn spec_has_access(self, token_id: u64, account: Seq<char>) -> bool {
        exists|i: int|
            0 <= i < self.access_rights@.len() && (#[trigger] self.access_rights@[i]).0
                == token_id && self.access_rights@[i].1@ == account
    }

    /// An empty ledger with the given platform fee wallet.
    pub fn new(platform_wallet: String) -> (contract: Crowdfunding)
        ensures
            contract.wf(),
            contract.campaigns@.len() == 0,
            contract.next_campaign_id == 0,
            contract.platform_wallet == platform_wallet,
            contract.tokens@.len() == 0,
            contract.next_token_id == 0,
            contract.access_rights@.len() == 0,
    {
        Crowdfunding {
            campaigns: Vec::new(),
            next_campaign_id: 0,
            platform_wallet,
            tokens: Vec::new(),
            next_token_id: 0,
            access_rights: Vec::new(),
        }
    }

    /// Creates a campaign, provided the attached payment covers the
    /// fixed fee. On success the next campaign identifier is allocated
    /// and returned and a fresh record is stored; on failure nothing is
    /// written and no identifier is spent.
    pub fn create_campaign(
        &mut self,
        image: String,
        title: String,
        description: String,
        target: u128,
        deadline: u64,
        caller: String,
        attached_payment: u128,
    ) -> (r: Result<u64, LedgerError>)
        requires
            old(self).wf(),
        ensures
            final(self).wf(),
            r is Ok <==> attached_payment >= CAMPAIGN_CREATION_FEE,
            attached_payment < CAMPAIGN_CREATION_FEE ==> r == Err::<u64, LedgerError>(
                LedgerError::InsufficientFee,
            ) && *final(self) == *old(self),
            attached_payment >= CAMPAIGN_CREATION_FEE ==> ({
                &&& r == Ok::<u64, LedgerError>(old(self).next_campaign_id)
                &&& final(self).next_campaign_id == old(self).next_campaign_id + 1
                &&& final(self).campaigns@.len() == old(self).campaigns@.len() + 1
                &&& forall|j: int|
                    0 <= j < old(self).campaigns@.len() ==> final(self).campaigns@[j] == old(self).campaigns@[j]
                &&& ({
                    let c = final(self).campaigns@.last();
                    &&& c.creator == caller
                    &&& c.image == image
                    &&& c.title == title
                    &&& c.description == description
                    &&& c.target == target
                    &&& c.deadline == deadline
                    &&& c.amount_collected == 0
                    &&& c.donations@.len() == 0
                })
                &&& final(self).tokens@ == old(self).tokens@
                &&& final(self).next_token_id == old(self).next_token_id
                &&& final(self).access_rights@ == old(self).access_rights@
                &&& final(self).platform_wallet == old(self).platform_wallet
            }),
            access_preserved(*old(self), *final(self)),
    {
        if attached_payment < CAMPAIGN_CREATION_FEE {
            proof {
                lemma_access_same(*self, *self);
            }
            return Err(LedgerError::InsufficientFee);
        }
        let campaign = Campaign {
            creator: caller,
            image,
            title,
            description,
            target,
            deadline,
            amount_collected: 0,
            donations: Vec::new(),
        };
        let id = self.next_campaign_id;
        self.campaigns.push(campaign);
        let n = self.campaigns.len();
        proof {
            assert(n == old(self).campaigns@.len() + 1);
            assert(usize::MAX <= u64::MAX);
        }
        self.next_campaign_id = self.next_campaign_id + 1;
        proof {
            assert forall|i: int|
                0 <= i < self.campaigns@.len() implies (#[trigger] self.campaigns@[i]).wf() by {
                if i < old(self).campaigns@.len() {
                    assert(old(self).campaigns@[i].wf());
                }
            }
            lemma_access_same(*old(self), *self);
        }
        Ok(id)
    }

    /// Replaces the platform fee wallet. Only the current platform
    /// wallet may do so.
    pub fn set_platform_wallet(&mut self, new_wallet: String, caller: String) -> (r: Result<
        (),
        LedgerError,
    >)
        requires
            old(self).wf(),
        ensures
            final(self).wf(),
            r is Ok <==> caller@ == old(self).platform_wallet@,
            caller@ != old(self).platform_wallet@ ==> r == Err::<(), LedgerError>(
                LedgerError::Unauthorized,
            ) && *final(self) == *old(self),
            caller@ == old(self).platform_wallet@ ==> ({
                &&& final(self).platform_wallet == new_wallet
                &&& final(self).campaigns@ == old(self).campaigns@
                &&& final(self).next_campaign_id == old(self).next_campaign_id
                &&& final(self).tokens@ == old(self).tokens@
                &&& final(self).next_token_id == old(self).next_token_id
                &&& final(self).access_rights@ == old(self).access_rights@
            }),
            access_preserved(*old(self), *final(self)),
    {
        if caller == self.platform_wallet {
            self.platform_wallet = new_wallet;
            proof {
                lemma_access_same(*old(self), *self);
            }
            Ok(())
        } else {
            proof {
                lemma_access_same(*self, *self);
            }
            Err(LedgerError::Unauthorized)
        }
    }

    /// Mints a collectible: the caller becomes its owner, the metadata
    /// is fixed, and the token starts unlisted. Allocates and returns
    /// the next token identifier.
    pub fn mint_nft(&mut self, title: String, description: String, media: String, caller: String)
        -> (token_id: u64)
        requires
            old(self).wf(),
        ensures
            final(self).wf(),
            token_id == old(self).next_token_id,
            final(self).next_token_id == old(self).next_token_id + 1,
            final(self).tokens@.len() == old(self).tokens@.len() + 1,
            forall|j: int|
                0 <= j < old(self).tokens@.len() ==> final(self).tokens@[j] == old(self).tokens@[j],
            ({
                let t = final(self).tokens@.last();
                &&& t.owner_id == caller
                &&& t.metadata.title == title
                &&& t.metadata.description == description
                &&& t.metadata.media == media
                &&& t.for_sale == false
                &&& t.price is None
            }),
            final(self).campaigns@ == old(self).campaigns@,
            final(self).next_campaign_id == old(self).next_campaign_id,
            final(self).access_rights@ == old(self).access_rights@,
            final(self).platform_wallet == old(self).platform_wallet,
            access_preserved(*old(self), *final(self)),
    {
        let token = NftToken {
            owner_id: caller,
            metadata: TokenMetadata { title, description, media },
            for_sale: false,
            price: None,
        };
        let token_id = self.next_token_id;
        self.tokens.push(token);
        let n = self.tokens.len();
        proof {
            assert(n == old(self).tokens@.len() + 1);
            assert(usize::MAX <= u64::MAX);
        }
        self.next_token_id = self.next_token_id + 1;
        proof {
            assert forall|i: int|
                0 <= i < self.tokens@.len() implies (#[trigger] self.tokens@[i]).wf() by {
                if i < old(self).tokens@.len() {
                    assert(old(self).tokens@[i].wf());
                }
            }
            lemma_access_same(*old(self), *self);
        }
        token_id
    }

    /// Records a donation to a campaign and computes the fund split.
    /// On success the campaign's books grow by exactly the payment,
    /// and the two returned transfer requests hand the creator the
    /// rounded-down 90 percent share and the platform wallet the
    /// remainder. Every failure leaves the ledger untouched.
    pub fn donate(&mut self, campaign_id: u64, caller: String, attached_payment: u128, now: u64)
        -> (r: Result<(Transfer, Transfer), LedgerError>)
        requires
            old(self).wf(),
        ensures
            final(self).wf(),
            r is Ok <==> (campaign_id < old(self).next_campaign_id && now <= old(self).campaigns@[campaign_id as int].deadline && old(self).campaigns@[campaign_id as int].amount_collected + attached_payment <= u128::MAX),
            campaign_id >= old(self).next_campaign_id ==> r == Err::<
                (Transfer, Transfer),
                LedgerError,
            >(LedgerError::NotFound) && *final(self) == *old(self),
            campaign_id < old(self).next_campaign_id && now > old(self).campaigns@[campaign_id as int].deadline ==> r == Err::<
                (Transfer, Transfer),
                LedgerError,
            >(LedgerError::CampaignEnded) && *final(self) == *old(self),
            campaign_id < old(self).next_campaign_id && now <= old(self).campaigns@[campaign_id as int].deadline && old(self).campaigns@[campaign_id as int].amount_collected + attached_payment > u128::MAX
                ==> r == Err::<(Transfer, Transfer), LedgerError>(LedgerError::Overflow) && *final(self) == *old(self),
            r is Ok ==> ({
                let pre = old(self).campaigns@[campaign_id as int];
                let post = final(self).campaigns@[campaign_id as int];
                let shares = r->Ok_0;
                &&& donation_recorded(pre, post, caller@, attached_payment)
                &&& shares.0.to@ == pre.creator@
                &&& shares.0.amount == spec_creator_share(attached_payment)
                &&& shares.1.to@ == old(self).platform_wallet@
                &&& shares.1.amount == spec_platform_share(attached_payment)
                &&& shares.0.amount + shares.1.amount == attached_payment
                &&& final(self).campaigns@.len() == old(self).campaigns@.len()
                &&& forall|j: int|
                    0 <= j < old(self).campaigns@.len() && j != campaign_id ==> final(self).campaigns@[j] == old(self).campaigns@[j]
                &&& final(self).next_campaign_id == old(self).next_campaign_id
                &&& final(self).platform_wallet == old(self).platform_wallet
                &&& final(self).tokens@ == old(self).tokens@
                &&& final(self).next_token_id == old(self).next_token_id
                &&& final(self).access_rights@ == old(self).access_rights@
            }),
            access_preserved(*old(self), *final(self)),
    {
        if campaign_id >= self.next_campaign_id {
            proof {
                lemma_access_same(*self, *self);
            }
            return Err(LedgerError::NotFound);
        }
        let len = self.campaigns.len();
        proof {
            assert(campaign_id < len);
        }
        let idx = campaign_id as usize;
        if now > self.campaigns[idx].deadline {
            proof {
                lemma_access_same(*self, *self);
            }
            return Err(LedgerError::CampaignEnded);
        }
        if attached_payment > u128::MAX - self.campaigns[idx].amount_collected {
            proof {
                lemma_access_same(*self, *self);
            }
            return Err(LedgerError::Overflow);
        }
        let mut campaign = self.campaigns.remove(idx);
        campaign.add_donation(&caller, attached_payment);
        let creator = campaign.creator.clone();
        self.campaigns.insert(idx, campaign);
        let shares = split_donation(attached_payment);
        let platform = self.platform_wallet.clone();
        proof {
            assert(self.campaigns@ =~= old(self).campaigns@.update(
                idx as int,
                self.campaigns@[idx as int],
            ));
            assert forall|i: int|
                0 <= i < self.campaigns@.len() implies (#[trigger] self.campaigns@[i]).wf() by {
                if i != idx as int {
                    assert(old(self).campaigns@[i].wf());
                }
            }
            lemma_access_same(*old(self), *self);
        }
        Ok(
            (
                Transfer { to: creator, amount: shares.0 },
                Transfer { to: platform, amount: shares.1 },
            ),
        )
    }

    /// Lists a token for sale at the given price. Only its owner may
    /// do so; on success the token is marked for sale with that price
    /// and nothing else changes.
    pub fn list_nft_for_sale(&mut self, token_id: u64, price: u128, caller: String) -> (r: Result<
        (),
        LedgerError,
    >)
        requires
            old(self).wf(),
        ensures
            final(self).wf(),
            r is Ok <==> (token_id < old(self).next_token_id && old(self).tokens@[token_id as int].owner_id@ == caller@),
            token_id >= old(self).next_token_id ==> r == Err::<(), LedgerError>(
                LedgerError::NotFound,
            ) && *final(self) == *old(self),
            token_id < old(self).next_token_id && old(self).tokens@[token_id as int].owner_id@
                != caller@ ==> r == Err::<(), LedgerError>(LedgerError::Unauthorized) && *final(self) == *old(self),
            r is Ok ==> ({
                let pre = old(self).tokens@[token_id as int];
                let post = final(self).tokens@[token_id as int];
                &&& final(self).tokens@.len() == old(self).tokens@.len()
                &&& forall|j: int|
                    0 <= j < old(self).tokens@.len() && j != token_id ==> final(self).tokens@[j]
                        == old(self).tokens@[j]
                &&& post.owner_id == pre.owner_id
                &&& post.metadata == pre.metadata
                &&& post.for_sale == true
                &&& post.price == Some(price)
                &&& final(self).campaigns@ == old(self).campaigns@
                &&& final(self).next_campaign_id == old(self).next_campaign_id
                &&& final(self).next_token_id == old(self).next_token_id
                &&& final(self).platform_wallet == old(self).platform_wallet
                &&& final(self).access_rights@ == old(self).access_rights@
            }),
            access_preserved(*old(self), *final(self)),
    {
        if token_id >= self.next_token_id {
            proof {
                lemma_access_same(*self, *self);
            }
            return Err(LedgerError::NotFound);
        }
        let len = self.tokens.len();
        proof {
            assert(token_id < len);
        }
        let idx = token_id as usize;
        if self.tokens[idx].owner_id == caller {
            let updated = NftToken {
                owner_id: self.tokens[idx].owner_id.clone(),
                metadata: self.tokens[idx].metadata.clone(),
                for_sale: true,
                price: Some(price),
            };
            self.tokens[idx] = updated;
            proof {
                assert forall|i: int|
                    0 <= i < self.tokens@.len() implies (#[trigger] self.tokens@[i]).wf() by {
                    if i != idx as int {
                        assert(old(self).tokens@[i].wf());
                    }
                }
                lemma_access_same(*old(self), *self);
            }
            Ok(())
        } else {
            proof {
                lemma_access_same(*self, *self);
            }
            Err(LedgerError::Unauthorized)
        }
    }

    /// Purchase of a listed token by someone other than its owner. The
    /// buyer's full attached payment is handed to the owner — even when
    /// it exceeds the listed price — the token record itself is left
    /// exactly as it was, and an access grant for the buyer is added.
    /// Every failure leaves the ledger untouched.
    pub fn buy_nft(&mut self, token_id: u64, caller: String, attached_payment: u128) -> (r: Result<
        Transfer,
        LedgerError,
    >)
        requires
            old(self).wf(),
        ensures
            final(self).wf(),
            r is Ok <==> (token_id < old(self).next_token_id && old(self).tokens@[token_id as int].for_sale && attached_payment >= old(self).tokens@[token_id as int].price->0 && caller@ != old(self).tokens@[token_id as int].owner_id@),
            token_id >= old(self).next_token_id ==> r == Err::<Transfer, LedgerError>(
                LedgerError::NotFound,
            ) && *final(self) == *old(self),
            token_id < old(self).next_token_id && !old(self).tokens@[token_id as int].for_sale
                ==> r == Err::<Transfer, LedgerError>(LedgerError::NotForSale) && *final(self)
                == *old(self),
            r != Err::<Transfer, LedgerError>(LedgerError::PriceMissing),
            token_id < old(self).next_token_id && old(self).tokens@[token_id as int].for_sale
                && attached_payment < old(self).tokens@[token_id as int].price->0 ==> r == Err::<
                Transfer,
                LedgerError,
            >(LedgerError::InsufficientPayment) && *final(self) == *old(self),
            token_id < old(self).next_token_id && old(self).tokens@[token_id as int].for_sale
                && attached_payment >= old(self).tokens@[token_id as int].price->0 && caller@
                == old(self).tokens@[token_id as int].owner_id@ ==> r == Err::<
                Transfer,
                LedgerError,
            >(LedgerError::SelfPurchase) && *final(self) == *old(self),
            r is Ok ==> ({
                &&& r->Ok_0.to@ == old(self).tokens@[token_id as int].owner_id@
                &&& r->Ok_0.amount == attached_payment
                &&& final(self).tokens@ == old(self).tokens@
                &&& final(self).next_token_id == old(self).next_token_id
                &&& final(self).campaigns@ == old(self).campaigns@
                &&& final(self).next_campaign_id == old(self).next_campaign_id
                &&& final(self).platform_wallet == old(self).platform_wallet
                &&& forall|t: u64, a: Seq<char>|
                    #[trigger] final(self).spec_has_access(t, a) <==> old(self).spec_has_access(
                        t,
                        a,
                    ) || (t == token_id && a == caller@)
            }),
            access_preserved(*old(self), *final(self)),
    {
        if token_id >= self.next_token_id {
            proof {
                lemma_access_same(*self, *self);
            }
            return Err(LedgerError::NotFound);
        }
        let len = self.tokens.len();
        proof {
            assert(token_id < len);
        }
        let idx = token_id as usize;
        if !self.tokens[idx].for_sale {
            proof {
                lemma_access_same(*self, *self);
            }
            return Err(LedgerError::NotForSale);
        }
        let price = match self.tokens[idx].price {
            Some(p) => p,
            None => {
                proof {
                    lemma_access_same(*self, *self);
                }
                return Err(LedgerError::PriceMissing);
            },
        };
        if attached_payment < price {
            proof {
                lemma_access_same(*self, *self);
            }
            return Err(LedgerError::InsufficientPayment);
        }
        if self.tokens[idx].owner_id == caller {
            proof {
                lemma_access_same(*self, *self);
            }
            return Err(LedgerError::SelfPurchase);
        }
        let seller = self.tokens[idx].owner_id.clone();
        self.access_rights.push((token_id, caller));
        proof {
            let n = old(self).access_rights@.len() as int;
            assert forall|t: u64, a: Seq<char>|
                #[trigger] self.spec_has_access(t, a) <==> old(self).spec_has_access(t, a) || (t
                    == token_id && a == caller@) by {
                if self.spec_has_access(t, a) {
                    let i = choose|i: int|
                        0 <= i < self.access_rights@.len() && (#[trigger] self.access_rights@[i]).0
                            == t && self.access_rights@[i].1@ == a;
                    if i < n {
                        assert(old(self).access_rights@[i].0 == t && old(self).access_rights@[i].1@ == a);
                        assert(old(self).spec_has_access(t, a));
                    }
                }
                if old(self).spec_has_access(t, a) {
                    let i = choose|i: int|
                        0 <= i < old(self).access_rights@.len() && (#[trigger] old(self).access_rights@[i]).0 == t && old(self).access_rights@[i].1@ == a;
                    assert(self.access_rights@[i].0 == t && self.access_rights@[i].1@ == a);
                    assert(self.spec_has_access(t, a));
                }
                if t == token_id && a == caller@ {
                    assert(self.access_rights@[n].0 == t && self.access_rights@[n].1@ == a);
                    assert(self.spec_has_access(t, a));
                }
            }
        }
        Ok(Transfer { to: seller, amount: attached_payment })
    }

    /// All campaigns, as identifier and read-only view pairs.
    #[verifier::loop_isolation(false)]
    pub fn get_campaigns(&self) -> (result: Vec<(u64, CampaignView)>)
        ensures
            result@.len() == self.campaigns@.len(),
            forall|i: int|
                0 <= i < result@.len() ==> (#[trigger] result@[i]).0 == i as u64 && view_matches(
                    result@[i].1,
                    self.campaigns@[i],
                ),
    {
        let mut result: Vec<(u64, CampaignView)> = Vec::new();
        let n = self.campaigns.len();
        proof {
            assert(usize::MAX <= u64::MAX);
        }
        let mut i: usize = 0;
        while i < n
            invariant
                i <= n,
                result@.len() == i,
                forall|k: int|
                    0 <= k < i ==> (#[trigger] result@[k]).0 == k as u64 && view_matches(
                        result@[k].1,
                        self.campaigns@[k],
                    ),
            decreases n - i,
        {
            let view = self.campaigns[i].to_view();
            result.push((i as u64, view));
            i += 1;
        }
        result
    }

    /// The donation table of a campaign, as donor and decimal amount
    /// pairs.
    #[verifier::loop_isolation(false)]
    pub fn get_donations(&self, campaign_id: u64) -> (r: Result<
        Vec<(String, String)>,
        LedgerError,
    >)
        requires
            self.wf(),
        ensures
            r is Ok <==> campaign_id < self.next_campaign_id,
            campaign_id >= self.next_campaign_id ==> r == Err::<Vec<(String, String)>, LedgerError>(
                LedgerError::NotFound,
            ),
            r is Ok ==> ({
                let entries = r->Ok_0@;
                let table = self.campaigns@[campaign_id as int].donations@;
                &&& entries.len() == table.len()
                &&& forall|i: int|
                    0 <= i < table.len() ==> (#[trigger] entries[i]).0@ == table[i].0@
                        && entries[i].1@ == dec_rep(table[i].1 as int)
            }),
    {
        if campaign_id >= self.next_campaign_id {
            return Err(LedgerError::NotFound);
        }
        let len = self.campaigns.len();
        proof {
            assert(campaign_id < len);
        }
        let idx = campaign_id as usize;
        let mut out: Vec<(String, String)> = Vec::new();
        let n = self.campaigns[idx].donations.len();
        let mut i: usize = 0;
        while i < n
            invariant
                i <= n,
                out@.len() == i,
                forall|k: int|
                    0 <= k < i ==> (#[trigger] out@[k]).0@
                        == self.campaigns@[idx as int].donations@[k].0@ && out@[k].1@ == dec_rep(
                        self.campaigns@[idx as int].donations@[k].1 as int,
                    ),
            decreases n - i,
        {
            let donor = self.campaigns[idx].donations[i].0.clone();
            let amount = u128_to_dec(self.campaigns[idx].donations[i].1);
            out.push((donor, amount));
            i += 1;
        }
        Ok(out)
    }

    /// The token with this identifier, if it exists.
    pub fn get_nft(&self, token_id: u64) -> (r: Option<NftToken>)
        requires
            self.wf(),
        ensures
            r is Some <==> token_id < self.next_token_id,
            r is Some ==> r->0 == self.tokens@[token_id as int],
    {
        if token_id < self.next_token_id {
            let len = self.tokens.len();
            proof {
                assert(token_id < len);
            }
            let idx = token_id as usize;
            Some(self.tokens[idx].clone())
        } else {
            None
        }
    }

    /// All tokens, as identifier and record pairs.
    #[verifier::loop_isolation(false)]
    pub fn get_all_nfts(&self) -> (result: Vec<(u64, NftToken)>)
        ensures
            result@.len() == self.tokens@.len(),
            forall|i: int|
                0 <= i < result@.len() ==> (#[trigger] result@[i]).0 == i as u64 && result@[i].1
                    == self.tokens@[i],
    {
        let mut result: Vec<(u64, NftToken)> = Vec::new();
        let n = self.tokens.len();
        proof {
            assert(usize::MAX <= u64::MAX);
        }
        let mut i: usize = 0;
        while i < n
            invariant
                i <= n,
                result@.len() == i,
                forall|k: int|
                    0 <= k < i ==> (#[trigger] result@[k]).0 == k as u64 && result@[k].1
                        == self.tokens@[k],
            decreases n - i,
        {
            let token = self.tokens[i].clone();
            result.push((i as u64, token));
            i += 1;
        }
        result
    }

    /// Whether an access grant is on record for this token and account;
    /// false whenever no grant exists, for every pair.
    #[verifier::loop_isolation(false)]
    pub fn has_access(&self, token_id: u64, user: String) -> (granted: bool)
        ensures
            granted == self.spec_has_access(token_id, user@),
    {
        let n = self.access_rights.len();
        let mut i: usize = 0;
        while i < n
            invariant
                i <= n,
                forall|k: int|
                    0 <= k < i ==> !((#[trigger] self.access_rights@[k]).0 == token_id
                        && self.access_rights@[k].1@ == user@),
            decreases n - i,
        {
            if self.access_rights[i].0 == token_id && self.access_rights[i].1 == user {
                return true;
            }
            i += 1;
        }
        false
    }
}

/// Two ledger states with the same grant table grant the same access.
proof fn lemma_access_same(pre: Crowdfunding, post: Crowdfunding)
    requires
        post.access_rights@ == pre.access_rights@,
    ensures
        access_preserved(pre, post),
{
    assert forall|t: u64, a: Seq<char>| pre.spec_has_access(t, a) implies post.spec_has_access(
        t,
        a,
    ) by {
        let i = choose|i: int|
            0 <= i < pre.access_rights@.len() && (#[trigger] pre.access_rights@[i]).0 == t
                && pre.access_rights@[i].1@ == a;
        assert(0 <= i < post.access_rights@.len() && post.access_rights@[i].0 == t
            && post.access_rights@[i].1@ == a);
    }
}

} // verus!
