use vstd::prelude::*;
use crate::decimal::{dec_rep, u128_to_dec};
use crate::donations::{
    donation_of, donors_unique, is_donor, lemma_donation_of_push, lemma_donation_of_update,
    lemma_entry_le_sum, lemma_sum_push, lemma_sum_update, sum_donations,
};

verus! {

/// A fundraising record: a creator collects donations towards a target
/// until a deadline, and the running total is kept in step with the
/// per-donor table.
pub struct Campaign {
    pub creator: String,
    pub image: String,
    pub title: String,
    pub description: String,
    pub target: u128,
    pub deadline: u64,
    pub amount_collected: u128,
    pub donations: Vec<(String, u128)>,
}

/// Read-only projection of a campaign for external consumption; the
/// 128-bit amounts are rendered as decimal strings so they cross the
/// boundary without losing precision.
pub struct CampaignView {
    pub creator: String,
    pub image: String,
    pub title: String,
    pub description: String,
    pub target: String,
    pub deadline: u64,
    pub amount_collected: String,
}

/// What `Campaign::to_view` promises of its projection.
pub open spec fn view_matches(v: CampaignView, c: Campaign) -> bool {
    &&& v.creator@ == c.creator@
    &&& v.image@ == c.image@
    &&& v.title@ == c.title@
    &&& v.description@ == c.description@
    &&& v.target@ == dec_rep(c.target as int)
    &&& v.deadline == c.deadline
    &&& v.amount_collected@ == dec_rep(c.amount_collected as int)
}

/// How a campaign changes when one donation is recorded: the donor's
/// cumulative amount and the collected total grow by exactly the
/// donated amount, every other donor's amount stays as it was, the
/// donor set grows by at most the donor, and every other field is
/// untouched.
pub open spec fn donation_recorded(pre: Campaign, post: Campaign, donor: Seq<char>, amount: u128) -> bool {
    &&& post.wf()
    &&& post.amount_collected == pre.amount_collected + amount
    &&& donation_of(post.donations@, donor) == donation_of(pre.donations@, donor) + amount
    &&& forall|d: Seq<char>|
        d != donor ==> donation_of(post.donations@, d) == donation_of(pre.donations@, d)
    &&& forall|d: Seq<char>|
        is_donor(post.donations@, d) <==> is_donor(pre.donations@, d) || d == donor
    &&& post.creator == pre.creator
    &&& post.image == pre.image
    &&& post.title == pre.title
    &&& post.description == pre.description
    &&& post.target == pre.target
    &&& post.deadline == pre.deadline
}

impl Campaign {
    /// Representation invariant: each donor has at most one entry, and
    /// the collected amount is exactly the sum of the table's amounts.
    pub open spec fn wf(self) -> bool {
        &&& donors_unique(self.donations@)
        &&& self.amount_collected == sum_donations(self.donations@)
    }

    pub fn to_view(&self) -> (v: CampaignView)
        ensures
            view_matches(v, *self),
    {
        CampaignView {
            creator: self.creator.clone(),
            image: self.image.clone(),
            title: self.title.clone(),
            description: self.description.clone(),
            target: u128_to_dec(self.target),
            deadline: self.deadline,
            amount_collected: u128_to_dec(self.amount_collected),
        }
    }

    /// Records a donation: the donor's cumulative amount and the
    /// collected total both grow by `amount`, every other donor's
    /// amount stays as it was, and no field besides the donation state
    /// changes.
    #[verifier::loop_isolation(false)]
    pub fn add_donation(&mut self, donor: &String, amount: u128)
        requires
            old(self).wf(),
            old(self).amount_collected + amount <= u128::MAX,
        ensures
            donation_recorded(*old(self), *final(self), donor@, amount),
    {
        let ghost s0 = self.donations@;
        let n = self.donations.len();
        let mut idx: usize = n;
        let mut i: usize = 0;
        while i < n
            invariant
                i <= n,
                idx <= n,
                idx == n ==> forall|k: int| 0 <= k < i ==> s0[k].0@ != donor@,
                idx < n ==> s0[idx as int].0@ == donor@,
            decreases n - i,
        {
            if idx == n && self.donations[i].0 == *donor {
                idx = i;
            }
            i += 1;
        }
        if idx < n {
            proof {
                lemma_entry_le_sum(s0, idx as int);
            }
            let prev = self.donations[idx].1;
            let entry = (donor.clone(), prev + amount);
            self.donations[idx] = entry;
            proof {
                lemma_sum_update(s0, idx as int, entry);
                assert forall|d: Seq<char>|
                    donation_of(self.donations@, d) == donation_of(s0, d) + (
                    if d == donor@ {
                        amount as int
                    } else {
                        0
                    }) by {
                    lemma_donation_of_update(s0, idx as int, entry, d);
                }
                assert(forall|k: int| 0 <= k < s0.len() ==> self.donations@[k].0@ == s0[k].0@);
                assert forall|d: Seq<char>|
                    is_donor(self.donations@, d) <==> is_donor(s0, d) by {
                }
                assert forall|a: int, b: int|
                    0 <= a < b < self.donations@.len() implies self.donations@[a].0@
                    != self.donations@[b].0@ by {
                    assert(s0[a].0@ != s0[b].0@);
                }
            }
        } else {
            let entry = (donor.clone(), amount);
            self.donations.push(entry);
            proof {
                lemma_sum_push(s0, entry);
                assert forall|d: Seq<char>|
                    donation_of(self.donations@, d) == donation_of(s0, d) + (
                    if d == donor@ {
                        amount as int
                    } else {
                        0
                    }) by {
                    lemma_donation_of_push(s0, entry, d);
                }
                assert(self.donations@[s0.len() as int].0@ == donor@);
                assert(forall|k: int| 0 <= k < s0.len() ==> self.donations@[k] == s0[k]);
                assert forall|d: Seq<char>|
                    is_donor(self.donations@, d) <==> is_donor(s0, d) || d == donor@ by {
                }
                assert forall|a: int, b: int|
                    0 <= a < b < self.donations@.len() implies self.donations@[a].0@
                    != self.donations@[b].0@ by {
                    if b == s0.len() {
                        assert(s0[a].0@ != donor@);
                    } else {
                        assert(s0[a].0@ != s0[b].0@);
                    }
                }
            }
        }
        self.amount_collected = self.amount_collected + amount;
    }
}

/// The collected amount of a well-formed campaign is always exactly the
/// sum of the amounts in its per-donor table.
pub proof fn lemma_collected_is_donation_sum(c: Campaign)
    requires
        c.wf(),
    ensures
        c.amount_collected == sum_donations(c.donations@),
{
}

} // verus!
