//! Projects that have spent what they may.

use crate::encoding::{format_uuid, uuid_text};
use crate::text::{same_text, texts};
use dashmap::DashSet;
use vstd::prelude::*;

verus! {

#[verifier::external_type_specification]
#[verifier::external_body]
#[verifier::reject_recursive_types(K)]
#[verifier::reject_recursive_types(S)]
pub struct ExDashSet<K, S>(DashSet<K, S>);

/// The ids a set holds. The set is changed through the functions below alone,
/// each of which has it to itself.
pub uninterp spec fn held_ids(s: DashSet<u128>) -> Set<u128>;

/// No ids at all.
pub open spec fn no_ids() -> Set<u128> {
    Set::empty()
}

/// `DashSet::new`: a set that holds nothing.
#[verifier::external_body]
fn empty_set() -> (s: DashSet<u128>)
    ensures
        held_ids(s) == no_ids(),
{
    DashSet::new()
}

/// `DashSet::contains`: whether the set holds an id.
#[verifier::external_body]
fn set_contains(s: &DashSet<u128>, id: u128) -> (b: bool)
    ensures
        b == held_ids(*s).contains(id),
{
    s.contains(&id)
}

/// `DashSet::insert`: the set holds the id and what it held before.
#[verifier::external_body]
fn set_insert(s: &mut DashSet<u128>, id: u128)
    ensures
        held_ids(*final(s)) == held_ids(*old(s)).insert(id),
{
    s.insert(id);
}

/// `DashSet::clear`: the set holds nothing.
#[verifier::external_body]
fn set_clear(s: &mut DashSet<u128>)
    ensures
        held_ids(*final(s)) == no_ids(),
{
    s.clear();
}

/// `DashSet::len`: the number of ids.
#[verifier::external_body]
fn set_len(s: &DashSet<u128>) -> (n: usize)
    ensures
        n == held_ids(*s).len(),
{
    s.len()
}

/// `DashSet::iter`: every id once, in no particular order.
#[verifier::external_body]
fn set_items(s: &DashSet<u128>) -> (v: Vec<u128>)
    ensures
        v@.no_duplicates(),
        forall|id: u128| #[trigger] v@.contains(id) == held_ids(*s).contains(id),
{
    s.iter().map(|id| *id).collect()
}

/// A spending limit, and what was spent of it.
#[derive(Debug)]
pub struct LimitStatus {
    pub entity_type: String,
    pub entity_id: u128,
    pub limit_cents: i64,
    /// In micro-cents; where it is not known, nothing counts as spent.
    pub spent: Option<i64>,
}

pub const MICRO_CENTS_PER_CENT: i64 = 10_000;

/// Whether a limit is a project's, and used up.
pub open spec fn blocks(l: LimitStatus) -> bool {
    let spent = match l.spent {
        Some(n) => n,
        None => 0,
    };
    spent >= l.limit_cents * MICRO_CENTS_PER_CENT && l.entity_type@ == "project"@
}

/// The projects with a limit that is used up.
pub open spec fn blocked_by(limits: Seq<LimitStatus>) -> Set<u128>
    decreases limits.len(),
{
    if limits.len() == 0 {
        Set::empty()
    } else if blocks(limits.last()) {
        blocked_by(limits.drop_last()).insert(limits.last().entity_id)
    } else {
        blocked_by(limits.drop_last())
    }
}

/// The set of blocked projects.
pub struct BudgetChecker {
    blocked_projects: DashSet<u128>,
}

impl View for BudgetChecker {
    type V = Set<u128>;

    closed spec fn view(&self) -> Set<u128> {
        held_ids(self.blocked_projects)
    }
}

impl Default for BudgetChecker {
    fn default() -> (r: Self)
        ensures
            r@ == no_ids(),
    {
        Self::new()
    }
}

impl BudgetChecker {
    /// A checker that blocks nothing.
    pub fn new() -> (r: Self)
        ensures
            r@ == no_ids(),
    {
        BudgetChecker { blocked_projects: empty_set() }
    }

    /// Get the list of currently blocked project IDs.
    pub fn get_blocked_projects(&self) -> (v: Vec<u128>)
        ensures
            v@.no_duplicates(),
            forall|id: u128| #[trigger] v@.contains(id) == self@.contains(id),
    {
        set_items(&self.blocked_projects)
    }

    /// Check if a project is blocked.
    pub fn is_blocked(&self, project_id: u128) -> (b: bool)
        ensures
            b == self@.contains(project_id),
    {
        set_contains(&self.blocked_projects, project_id)
    }

    /// Replace the set of blocked projects by those with a limit that is used
    /// up, and return their number.
    pub fn check_budgets(&mut self, limits: &Vec<LimitStatus>) -> (count: usize)
        ensures
            final(self)@ == blocked_by(limits@),
            count == final(self)@.len(),
    {
        set_clear(&mut self.blocked_projects);
        let mut i: usize = 0;
        assert(limits@.take(0) =~= Seq::empty());
        while i < limits.len()
            invariant
                i <= limits@.len(),
                self@ == blocked_by(limits@.take(i as int)),
            decreases limits.len() - i,
        {
            proof {
                let cut = limits@.take(i + 1);
                assert(cut.last() == limits@[i as int]);
                assert(cut.drop_last() =~= limits@.take(i as int));
            }
            let limit: &LimitStatus = &limits[i];
            let spent: i64 = match limit.spent {
                Some(n) => n,
                None => 0,
            };
            let ceiling: i128 = limit.limit_cents as i128 * MICRO_CENTS_PER_CENT as i128;
            if spent as i128 >= ceiling && same_text(limit.entity_type.as_str(), "project") {
                set_insert(&mut self.blocked_projects, limit.entity_id);
            }
            i += 1;
        }
        assert(limits@.take(i as int) =~= limits@);
        set_len(&self.blocked_projects)
    }
}

/// The ids in words.
pub open spec fn uuid_texts(ids: Seq<u128>) -> Seq<Seq<char>> {
    ids.map_values(|id: u128| uuid_text(id))
}

/// The ids in words.
pub fn format_uuids(ids: &Vec<u128>) -> (r: Vec<String>)
    ensures
        texts(r@) == uuid_texts(ids@),
{
    let mut r: Vec<String> = Vec::new();
    let mut i: usize = 0;
    while i < ids.len()
        invariant
            i <= ids@.len(),
            r@.len() == i,
            forall|j: int| 0 <= j < i ==> (#[trigger] r@[j])@ == uuid_text(ids@[j]),
        decreases ids.len() - i,
    {
        r.push(format_uuid(ids[i]));
        i += 1;
    }
    assert(texts(r@) =~= uuid_texts(ids@));
    r
}

/// A project is blocked exactly where one of its own limits is used up.
pub proof fn blocked_means_over_limit(limits: Seq<LimitStatus>, id: u128)
    ensures
        blocked_by(limits).contains(id) == exists|i: int|
            0 <= i < limits.len() && blocks(#[trigger] limits[i]) && limits[i].entity_id == id,
    decreases limits.len(),
{
    if limits.len() > 0 {
        let shorter = limits.drop_last();
        let n = limits.len() - 1;
        blocked_means_over_limit(shorter, id);
        if blocked_by(shorter).contains(id) {
            let i = choose|i: int|
                0 <= i < shorter.len() && blocks(#[trigger] shorter[i]) && shorter[i].entity_id
                    == id;
            assert(limits[i] == shorter[i]);
        }
        if exists|i: int|
            0 <= i < limits.len() && blocks(#[trigger] limits[i]) && limits[i].entity_id == id {
            let i = choose|i: int|
                0 <= i < limits.len() && blocks(#[trigger] limits[i]) && limits[i].entity_id == id;
            if i < n {
                assert(shorter[i] == limits[i]);
            }
        }
        assert(limits[n] == limits.last());
    }
}

} // verus!
