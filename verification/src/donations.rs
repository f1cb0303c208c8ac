use vstd::prelude::*;

verus! {

/// Sum of all amounts recorded in a donation table.
pub open spec fn sum_donations(s: Seq<(String, u128)>) -> int
    decreases s.len(),
{
    if s.len() == 0 {
        0
    } else {
        s.first().1 + sum_donations(s.drop_first())
    }
}

/// Cumulative amount recorded for one donor: the sum of the amounts of
/// the entries carrying that donor's account. With unique donors this
/// is the donor's single entry, or zero when the donor is absent.
pub open spec fn donation_of(s: Seq<(String, u128)>, donor: Seq<char>) -> int
    decreases s.len(),
{
    if s.len() == 0 {
        0
    } else if s.first().0@ == donor {
        s.first().1 + donation_of(s.drop_first(), donor)
    } else {
        donation_of(s.drop_first(), donor)
    }
}

/// Whether the table holds an entry for this donor.
pub open spec fn is_donor(s: Seq<(String, u128)>, donor: Seq<char>) -> bool {
    exists|i: int| 0 <= i < s.len() && s[i].0@ == donor
}

/// Each donor account appears at most once in the table.
pub open spec fn donors_unique(s: Seq<(String, u128)>) -> bool {
    forall|i: int, j: int| 0 <= i < j < s.len() ==> s[i].0@ != s[j].0@
}

pub proof fn lemma_sum_nonneg(s: Seq<(String, u128)>)
    ensures
        sum_donations(s) >= 0,
    decreases s.len(),
{
    if s.len() > 0 {
        lemma_sum_nonneg(s.drop_first());
    }
}

/// A single entry never exceeds the sum of the whole table.
pub proof fn lemma_entry_le_sum(s: Seq<(String, u128)>, i: int)
    requires
        0 <= i < s.len(),
    ensures
        s[i].1 <= sum_donations(s),
    decreases s.len(),
{
    lemma_sum_nonneg(s.drop_first());
    if i > 0 {
        lemma_entry_le_sum(s.drop_first(), i - 1);
    }
}

/// Replacing the entry at `i` shifts the sum by the difference of the
/// amounts.
pub proof fn lemma_sum_update(s: Seq<(String, u128)>, i: int, p: (String, u128))
    requires
        0 <= i < s.len(),
    ensures
        sum_donations(s.update(i, p)) == sum_donations(s) - s[i].1 + p.1,
    decreases s.len(),
{
    if i == 0 {
        assert(s.update(0, p).drop_first() =~= s.drop_first());
    } else {
        assert(s.update(i, p).drop_first() =~= s.drop_first().update(i - 1, p));
        lemma_sum_update(s.drop_first(), i - 1, p);
    }
}

/// Appending an entry adds its amount to the sum.
pub proof fn lemma_sum_push(s: Seq<(String, u128)>, p: (String, u128))
    ensures
        sum_donations(s.push(p)) == sum_donations(s) + p.1,
    decreases s.len(),
{
    if s.len() == 0 {
        assert(s.push(p).drop_first() =~= Seq::<(String, u128)>::empty());
        assert(sum_donations(s.push(p).drop_first()) == 0);
    } else {
        assert(s.push(p).drop_first() =~= s.drop_first().push(p));
        lemma_sum_push(s.drop_first(), p);
    }
}

/// Replacing the entry at `i` changes each donor's cumulative amount by
/// exactly what that entry contributed before and contributes after.
pub proof fn lemma_donation_of_update(
    s: Seq<(String, u128)>,
    i: int,
    p: (String, u128),
    donor: Seq<char>,
)
    requires
        0 <= i < s.len(),
    ensures
        donation_of(s.update(i, p), donor) == donation_of(s, donor) - (
        if s[i].0@ == donor {
            s[i].1 as int
        } else {
            0
        }) + (
        if p.0@ == donor {
            p.1 as int
        } else {
            0
        }),
    decreases s.len(),
{
    if i == 0 {
        assert(s.update(0, p).drop_first() =~= s.drop_first());
    } else {
        assert(s.update(i, p).drop_first() =~= s.drop_first().update(i - 1, p));
        lemma_donation_of_update(s.drop_first(), i - 1, p, donor);
    }
}

/// Appending an entry adds its amount to its own donor's cumulative
/// amount and leaves every other donor's amount unchanged.
pub proof fn lemma_donation_of_push(s: Seq<(String, u128)>, p: (String, u128), donor: Seq<char>)
    ensures
        donation_of(s.push(p), donor) == donation_of(s, donor) + (
        if p.0@ == donor {
            p.1 as int
        } else {
            0
        }),
    decreases s.len(),
{
    if s.len() == 0 {
        assert(s.push(p).drop_first() =~= Seq::<(String, u128)>::empty());
        assert(donation_of(s.push(p).drop_first(), donor) == 0);
    } else {
        assert(s.push(p).drop_first() =~= s.drop_first().push(p));
        lemma_donation_of_push(s.drop_first(), p, donor);
    }
}

} // verus!
