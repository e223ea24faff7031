use vstd::prelude::*;

use crate::error::Error;
use crate::lead::{fresh_lead, lead_view_wf, Lead, LeadView};
use crate::names::CompanyName;
use crate::time::Timestamp;
use crate::timeline::timeline_insert;

verus! {

// ---------------------------------------------------------------------
// The mathematical model: the store as a listing of companies, each with
// its positions in append order.
// ---------------------------------------------------------------------

pub open spec fn positions_view(v: Seq<Lead>) -> Seq<LeadView> {
    v.map_values(|l: Lead| l@)
}

pub open spec fn store_view(v: Seq<(CompanyName, Vec<Lead>)>) -> Seq<(Seq<char>, Seq<LeadView>)> {
    v.map_values(|e: (CompanyName, Vec<Lead>)| (e.0@, positions_view(e.1@)))
}

/// The store has an entry filed under `name`.
pub open spec fn has_company(s: Seq<(Seq<char>, Seq<LeadView>)>, name: Seq<char>) -> bool {
    exists|i: int| 0 <= i < s.len() && s[i].0 == name
}

/// Where the entry filed under `name` stands (meaningful only when
/// `has_company` holds; under well-formedness it is the one such entry).
pub open spec fn company_index(s: Seq<(Seq<char>, Seq<LeadView>)>, name: Seq<char>) -> int {
    choose|i: int| 0 <= i < s.len() && s[i].0 == name
}

/// Which position a company plus optional index names, or why none:
/// an unknown company is `NotFound`; without an index the sole position
/// is meant, and two or more are `Ambiguous`; an explicit index past the
/// position count is `OutOfRange`.
pub open spec fn resolved_lead(
    s: Seq<(Seq<char>, Seq<LeadView>)>,
    name: Seq<char>,
    index: Option<usize>,
) -> Result<LeadView, Error> {
    if !has_company(s, name) {
        Result::Err(Error::NotFound)
    } else {
        let ps = s[company_index(s, name)].1;
        match index {
            Option::None => if ps.len() == 1 {
                Result::Ok(ps[0])
            } else {
                Result::Err(Error::Ambiguous(ps.len() as usize))
            },
            Option::Some(i) => if i < ps.len() {
                Result::Ok(ps[i as int])
            } else {
                Result::Err(Error::OutOfRange(ps.len() as usize, i))
            },
        }
    }
}

/// The position index a successful resolution names.
pub open spec fn resolved_index(index: Option<usize>) -> int {
    match index {
        Option::None => 0,
        Option::Some(i) => i as int,
    }
}

/// How adding a lead changes the store: the lead joins the end of its
/// company's positions, and a company not yet on file gains an entry at
/// the end of the listing; `index` is the new lead's place among its
/// company's positions.
pub open spec fn lead_added(
    s0: Seq<(Seq<char>, Seq<LeadView>)>,
    s1: Seq<(Seq<char>, Seq<LeadView>)>,
    name: Seq<char>,
    lv: LeadView,
    index: int,
) -> bool {
    if has_company(s0, name) {
        let ci = company_index(s0, name);
        s1 == s0.update(ci, (name, s0[ci].1.push(lv))) && index == s0[ci].1.len()
    } else {
        s1 == s0.push((name, seq![lv])) && index == 0
    }
}

/// How a successful close changes the store: the resolved position leaves
/// its company's list (later positions shift down one), the company's
/// entry disappears when that was its last position, and the detached
/// lead gains a "Closed: {reason}" status entry at `at`.
pub open spec fn lead_closed(
    s0: Seq<(Seq<char>, Seq<LeadView>)>,
    s1: Seq<(Seq<char>, Seq<LeadView>)>,
    name: Seq<char>,
    index: Option<usize>,
    at: i64,
    reason: Seq<char>,
    removed: LeadView,
) -> bool {
    let ci = company_index(s0, name);
    let pi = resolved_index(index);
    let target = s0[ci].1[pi];
    &&& removed == (LeadView { status: timeline_insert(target.status, at, "Closed: "@ + reason), ..target })
    &&& if s0[ci].1.len() == 1 {
        s1 == s0.remove(ci)
    } else {
        s1 == s0.update(ci, (s0[ci].0, s0[ci].1.remove(pi)))
    }
}

/// Every company appears once, owns at least one position, and every
/// lead on file is itself well formed.
pub open spec fn store_wf(s: Seq<(Seq<char>, Seq<LeadView>)>) -> bool {
    &&& forall|i: int, j: int| 0 <= i < j < s.len() ==> s[i].0 != s[j].0
    &&& forall|i: int| 0 <= i < s.len() ==> #[trigger] s[i].1.len() > 0
    &&& forall|i: int, k: int|
        0 <= i < s.len() && 0 <= k < s[i].1.len() ==> lead_view_wf(#[trigger] s[i].1[k])
}

/// Replacing one position of one company with another well-formed lead
/// keeps the store well formed.
pub proof fn lemma_updated_wf(
    s0: Seq<(Seq<char>, Seq<LeadView>)>,
    s1: Seq<(Seq<char>, Seq<LeadView>)>,
    ci: int,
    name: Seq<char>,
    pi: int,
    lv: LeadView,
)
    requires
        store_wf(s0),
        0 <= ci < s0.len(),
        s0[ci].0 == name,
        0 <= pi < s0[ci].1.len(),
        lead_view_wf(lv),
        s1 == s0.update(ci, (name, s0[ci].1.update(pi, lv))),
    ensures
        store_wf(s1),
{
    assert forall|a: int, b: int| 0 <= a < b < s1.len() implies s1[a].0 != s1[b].0 by {
        assert(s1[a].0 == s0[a].0);
        assert(s1[b].0 == s0[b].0);
    }
    assert forall|a: int| 0 <= a < s1.len() implies #[trigger] s1[a].1.len() > 0 by {
        assert(s0[a].1.len() > 0);
    }
    assert forall|a: int, k: int|
        0 <= a < s1.len() && 0 <= k < s1[a].1.len() implies lead_view_wf(
            #[trigger] s1[a].1[k],
        ) by {
        if a == ci && k == pi {
            assert(s1[a].1[k] == lv);
        } else {
            assert(s1[a].1[k] == s0[a].1[k]);
            assert(lead_view_wf(s0[a].1[k]));
        }
    }
}

/// Replacing one lead among a company's positions replaces its model
/// among the modelled positions.
pub broadcast proof fn lemma_positions_view_update(v: Seq<Lead>, pi: int, l: Lead)
    requires
        0 <= pi < v.len(),
    ensures
        #[trigger] positions_view(v.update(pi, l)) == positions_view(v).update(pi, l@),
{
    assert(positions_view(v.update(pi, l)) =~= positions_view(v).update(pi, l@));
}

/// Replacing one company entry replaces its model in the modelled store.
pub broadcast proof fn lemma_store_view_update(
    v: Seq<(CompanyName, Vec<Lead>)>,
    ci: int,
    e: (CompanyName, Vec<Lead>),
)
    requires
        0 <= ci < v.len(),
    ensures
        #[trigger] store_view(v.update(ci, e)) == store_view(v).update(
            ci,
            (e.0@, positions_view(e.1@)),
        ),
{
    assert(store_view(v.update(ci, e)) =~= store_view(v).update(ci, (e.0@, positions_view(e.1@))));
}

// ---------------------------------------------------------------------
// The store itself.
// ---------------------------------------------------------------------

/// All tracked leads, filed by company name.
///
/// A company stands in the listing exactly as long as it has at least one
/// open position; closing the last one removes the entry. Position
/// indices are stable only until an earlier position of the same company
/// is removed.
#[derive(Debug)]
pub struct Leads {
    pub leads: Vec<(CompanyName, Vec<Lead>)>,
}

impl View for Leads {
    type V = Seq<(Seq<char>, Seq<LeadView>)>;

    open spec fn view(&self) -> Seq<(Seq<char>, Seq<LeadView>)> {
        store_view(self.leads@)
    }
}

impl Default for Leads {
    fn default() -> (store: Self)
        ensures
            store.wf(),
            store@ == Seq::<(Seq<char>, Seq<LeadView>)>::empty(),
    {
        Leads::new()
    }
}

impl Leads {
    /// The store's invariant: see [`store_wf`].
    pub open spec fn wf(&self) -> bool {
        store_wf(self@)
    }

    /// An empty store.
    pub fn new() -> (store: Leads)
        ensures
            store.wf(),
            store@ == Seq::<(Seq<char>, Seq<LeadView>)>::empty(),
    {
        let store = Leads { leads: Vec::new() };
        proof {
            assert(store@ =~~= Seq::<(Seq<char>, Seq<LeadView>)>::empty());
        }
        store
    }

    /// The entry filed under `name`, by position in the listing.
    fn find_company(&self, name: &CompanyName) -> (r: Option<usize>)
        ensures
            match r {
                Option::Some(i) => i < self@.len() && self@[i as int].0 == name@,
                Option::None => !has_company(self@, name@),
            },
    {
        let mut i: usize = 0;
        while i < self.leads.len() && self.leads[i].0 != *name
            invariant
                i <= self.leads.len(),
                forall|k: int| 0 <= k < i ==> self.leads@[k].0@ != name@,
            decreases self.leads.len() - i,
        {
            i += 1;
        }
        if i < self.leads.len() {
            proof {
                assert(self@[i as int] == (self.leads@[i as int].0@, positions_view(
                    self.leads@[i as int].1@,
                )));
            }
            Option::Some(i)
        } else {
            proof {
                assert forall|k: int| 0 <= k < self@.len() implies self@[k].0 != name@ by {
                    assert(self@[k] == (self.leads@[k].0@, positions_view(self.leads@[k].1@)));
                }
            }
            Option::None
        }
    }

    /// Under well-formedness, an entry that carries `name` is the one the
    /// model resolves `name` to.
    proof fn lemma_company_index_is(&self, name: Seq<char>, i: int)
        requires
            self.wf(),
            0 <= i < self@.len(),
            self@[i].0 == name,
        ensures
            has_company(self@, name),
            company_index(self@, name) == i,
    {
        assert(has_company(self@, name));
        let ci = company_index(self@, name);
        if ci < i {
            assert(self@[ci].0 != self@[i].0);
        }
        if i < ci {
            assert(self@[i].0 != self@[ci].0);
        }
    }

    /// Constructs a lead for `position` and files it under `name`;
    /// returns its index among that company's positions. Always succeeds.
    pub fn new_lead(&mut self, name: CompanyName, position: String, source: String) -> (index:
        usize)
        requires
            old(self).wf(),
        ensures
            final(self).wf(),
            exists|created: i64|
                lead_added(
                    old(self)@,
                    final(self)@,
                    name@,
                    fresh_lead(position@, source@, created),
                    index as int,
                ),
    {
        let ghost p = position@;
        let ghost s = source@;
        let ghost nm = name@;
        let ghost v0 = self@;
        let lead = Lead::new(position, source);
        let ghost created = choose|created: i64| lead@ == fresh_lead(p, s, created);
        let index = self.push_lead(name, lead);
        proof {
            assert(lead_added(v0, self@, nm, fresh_lead(p, s, created), index as int));
        }
        index
    }

    /// Files an existing lead under `name`: at the end of the company's
    /// positions, creating the company's entry if it is new. Returns the
    /// lead's index among that company's positions.
    pub fn push_lead(&mut self, name: CompanyName, lead: Lead) -> (index: usize)
        requires
            old(self).wf(),
            lead.wf(),
        ensures
            final(self).wf(),
            lead_added(old(self)@, final(self)@, name@, lead@, index as int),
    {
        let ghost v0 = self@;
        let ghost nm = name@;
        let ghost lv = lead@;
        let found = self.find_company(&name);
        match found {
            Option::Some(ci) => {
                proof {
                    self.lemma_company_index_is(nm, ci as int);
                }
                let mut entry = self.leads.remove(ci);
                let index = entry.1.len();
                entry.1.push(lead);
                self.leads.insert(ci, entry);
                proof {
                    assert(self@ =~~= v0.update(ci as int, (nm, v0[ci as int].1.push(lv))));
                    assert forall|a: int, b: int|
                        0 <= a < b < self@.len() implies self@[a].0 != self@[b].0 by {
                        assert(self@[a].0 == v0[a].0);
                        assert(self@[b].0 == v0[b].0);
                    }
                    assert forall|a: int| 0 <= a < self@.len() implies #[trigger] self@[a].1.len()
                        > 0 by {
                        assert(v0[a].1.len() > 0);
                    }
                    assert forall|a: int, k: int|
                        0 <= a < self@.len() && 0 <= k < self@[a].1.len() implies lead_view_wf(
                            #[trigger] self@[a].1[k],
                        ) by {
                        if a == ci as int && k == v0[a].1.len() {
                            assert(self@[a].1[k] == lv);
                        } else {
                            assert(self@[a].1[k] == v0[a].1[k]);
                            assert(lead_view_wf(v0[a].1[k]));
                        }
                    }
                }
                index
            },
            Option::None => {
                let mut positions: Vec<Lead> = Vec::new();
                positions.push(lead);
                self.leads.push((name, positions));
                proof {
                    assert(self@ =~~= v0.push((nm, seq![lv])));
                    assert forall|a: int, b: int|
                        0 <= a < b < self@.len() implies self@[a].0 != self@[b].0 by {
                        if b < v0.len() {
                            assert(self@[a].0 == v0[a].0);
                            assert(self@[b].0 == v0[b].0);
                        } else {
                            assert(self@[a].0 == v0[a].0);
                            assert(self@[b].0 == nm);
                        }
                    }
                    assert forall|a: int| 0 <= a < self@.len() implies #[trigger] self@[a].1.len()
                        > 0 by {
                        if a < v0.len() {
                            assert(v0[a].1.len() > 0);
                        }
                    }
                    assert forall|a: int, k: int|
                        0 <= a < self@.len() && 0 <= k < self@[a].1.len() implies lead_view_wf(
                            #[trigger] self@[a].1[k],
                        ) by {
                        if a < v0.len() {
                            assert(self@[a].1[k] == v0[a].1[k]);
                            assert(lead_view_wf(v0[a].1[k]));
                        } else {
                            assert(self@[a].1[k] == lv);
                        }
                    }
                }
                0
            },
        }
    }

    /// Reads the position that `name` plus `index` resolve to, exactly as
    /// the model says: the sole position when no index is given, the
    /// indexed one when it is, and the matching error otherwise.
    pub fn get(&self, name: &CompanyName, index: Option<usize>) -> (r: Result<&Lead, Error>)
        requires
            self.wf(),
        ensures
            match r {
                Result::Ok(lead) => resolved_lead(self@, name@, index) == Result::Ok::<
                    LeadView,
                    Error,
                >(lead@) && lead.wf(),
                Result::Err(e) => resolved_lead(self@, name@, index) == Result::Err::<
                    LeadView,
                    Error,
                >(e),
            },
    {
        let found = self.find_company(name);
        match found {
            Option::None => Result::Err(Error::NotFound),
            Option::Some(ci) => {
                proof {
                    self.lemma_company_index_is(name@, ci as int);
                    assert(self@[ci as int] == (self.leads@[ci as int].0@, positions_view(
                        self.leads@[ci as int].1@,
                    )));
                }
                let positions = &self.leads[ci].1;
                let count = positions.len();
                match index {
                    Option::None => {
                        if count == 1 {
                            Result::Ok(&positions[0])
                        } else {
                            Result::Err(Error::Ambiguous(count))
                        }
                    },
                    Option::Some(i) => {
                        if i < count {
                            Result::Ok(&positions[i])
                        } else {
                            Result::Err(Error::OutOfRange(count, i))
                        }
                    },
                }
            },
        }
    }

    /// The mutable variant of [`Leads::get`]. On success the store ends
    /// up as before except for the borrowed position, which ends up as
    /// whatever the caller leaves in the borrow.
    pub fn get_mut(&mut self, name: &CompanyName, index: Option<usize>) -> (r: Result<
        &mut Lead,
        Error,
    >)
        requires
            old(self).wf(),
        ensures
            match r {
                Result::Ok(lead) => {
                    &&& resolved_lead(old(self)@, name@, index) == Result::Ok::<LeadView, Error>(
                        (*lead)@,
                    )
                    &&& (*lead).wf()
                    &&& final(self)@ == old(self)@.update(
                        company_index(old(self)@, name@),
                        (
                            name@,
                            old(self)@[company_index(old(self)@, name@)].1.update(
                                resolved_index(index),
                                final(lead)@,
                            ),
                        ),
                    )
                },
                Result::Err(e) => resolved_lead(old(self)@, name@, index) == Result::Err::<
                    LeadView,
                    Error,
                >(e) && final(self)@ == old(self)@,
            },
    {
        broadcast use lemma_positions_view_update, lemma_store_view_update;

        let ghost v0 = self@;
        let found = self.find_company(name);
        match found {
            Option::None => Result::Err(Error::NotFound),
            Option::Some(ci) => {
                proof {
                    self.lemma_company_index_is(name@, ci as int);
                    assert(self@[ci as int] == (self.leads@[ci as int].0@, positions_view(
                        self.leads@[ci as int].1@,
                    )));
                }
                let count = self.leads[ci].1.len();
                let pi: usize = match index {
                    Option::None => {
                        if count != 1 {
                            return Result::Err(Error::Ambiguous(count));
                        }
                        0
                    },
                    Option::Some(i) => {
                        if i >= count {
                            return Result::Err(Error::OutOfRange(count, i));
                        }
                        i
                    },
                };
                let entry = &mut self.leads[ci];
                let lead = &mut entry.1[pi];
                Result::Ok(lead)
            },
        }
    }

    /// Detaches the position that `name` plus `index` resolve to: it
    /// leaves the store (the company's entry too, when it was the last
    /// position), gains a "Closed: {reason}" status entry at `date`, and
    /// is returned to the caller, which owns it from here on.
    pub fn close_lead(
        &mut self,
        date: Timestamp,
        name: &CompanyName,
        index: Option<usize>,
        reason: String,
    ) -> (r: Result<Lead, Error>)
        requires
            old(self).wf(),
        ensures
            final(self).wf(),
            match r {
                Result::Ok(lead) => {
                    &&& lead.wf()
                    &&& resolved_lead(old(self)@, name@, index) is Ok
                    &&& lead_closed(
                        old(self)@,
                        final(self)@,
                        name@,
                        index,
                        date.millis,
                        reason@,
                        lead@,
                    )
                },
                Result::Err(e) => resolved_lead(old(self)@, name@, index) == Result::Err::<
                    LeadView,
                    Error,
                >(e) && final(self)@ == old(self)@,
            },
    {
        let ghost v0 = self@;
        let ghost rs = reason@;
        let found = self.find_company(name);
        let ci = match found {
            Option::None => {
                return Result::Err(Error::NotFound);
            },
            Option::Some(ci) => ci,
        };
        proof {
            self.lemma_company_index_is(name@, ci as int);
            assert(self@[ci as int] == (self.leads@[ci as int].0@, positions_view(
                self.leads@[ci as int].1@,
            )));
        }
        let count = self.leads[ci].1.len();
        let pi: usize = match index {
            Option::None => {
                if count != 1 {
                    return Result::Err(Error::Ambiguous(count));
                }
                0
            },
            Option::Some(i) => {
                if i >= count {
                    return Result::Err(Error::OutOfRange(count, i));
                }
                i
            },
        };
        let mut entry = self.leads.remove(ci);
        let mut lead = entry.1.remove(pi);
        proof {
            assert(lead@ == v0[ci as int].1[pi as int]);
            assert(lead_view_wf(lead@));
        }
        let mut msg = String::from_str("Closed: ");
        msg.append(reason.as_str());
        lead.add_status(date, msg);
        if entry.1.len() > 0 {
            self.leads.insert(ci, entry);
            proof {
                assert(positions_view(entry.1@) =~~= v0[ci as int].1.remove(pi as int));
                assert(self@ =~~= v0.update(
                    ci as int,
                    (v0[ci as int].0, v0[ci as int].1.remove(pi as int)),
                ));
                assert forall|a: int, b: int|
                    0 <= a < b < self@.len() implies self@[a].0 != self@[b].0 by {
                    assert(self@[a].0 == v0[a].0);
                    assert(self@[b].0 == v0[b].0);
                }
                assert forall|a: int| 0 <= a < self@.len() implies #[trigger] self@[a].1.len()
                    > 0 by {
                    if a != ci as int {
                        assert(v0[a].1.len() > 0);
                    }
                }
                assert forall|a: int, k: int|
                    0 <= a < self@.len() && 0 <= k < self@[a].1.len() implies lead_view_wf(
                        #[trigger] self@[a].1[k],
                    ) by {
                    if a == ci as int {
                        assert(self@[a].1[k] == v0[a].1.remove(pi as int)[k]);
                        if k < pi as int {
                            assert(v0[a].1.remove(pi as int)[k] == v0[a].1[k]);
                            assert(lead_view_wf(v0[a].1[k]));
                        } else {
                            assert(v0[a].1.remove(pi as int)[k] == v0[a].1[k + 1]);
                            assert(lead_view_wf(v0[a].1[k + 1]));
                        }
                    } else {
                        assert(self@[a].1[k] == v0[a].1[k]);
                        assert(lead_view_wf(v0[a].1[k]));
                    }
                }
            }
        } else {
            proof {
                assert(self@ =~~= v0.remove(ci as int));
                assert forall|a: int, b: int|
                    0 <= a < b < self@.len() implies self@[a].0 != self@[b].0 by {
                    let a0 = if a < ci as int { a } else { a + 1 };
                    let b0 = if b < ci as int { b } else { b + 1 };
                    assert(self@[a].0 == v0[a0].0);
                    assert(self@[b].0 == v0[b0].0);
                }
                assert forall|a: int| 0 <= a < self@.len() implies #[trigger] self@[a].1.len()
                    > 0 by {
                    let a0 = if a < ci as int { a } else { a + 1 };
                    assert(self@[a] == v0[a0]);
                    assert(v0[a0].1.len() > 0);
                }
                assert forall|a: int, k: int|
                    0 <= a < self@.len() && 0 <= k < self@[a].1.len() implies lead_view_wf(
                        #[trigger] self@[a].1[k],
                    ) by {
                    let a0 = if a < ci as int { a } else { a + 1 };
                    assert(self@[a] == v0[a0]);
                    assert(lead_view_wf(v0[a0].1[k]));
                }
            }
        }
        Result::Ok(lead)
    }

    /// The companies on file, in listing order.
    pub fn companies(&self) -> (names: Vec<CompanyName>)
        ensures
            names@.len() == self@.len(),
            forall|i: int| 0 <= i < names@.len() ==> names@[i]@ == self@[i].0,
    {
        let mut names: Vec<CompanyName> = Vec::new();
        let mut i: usize = 0;
        while i < self.leads.len()
            invariant
                i <= self.leads.len(),
                names@.len() == i,
                forall|k: int| 0 <= k < i ==> names@[k]@ == self@[k].0,
            decreases self.leads.len() - i,
        {
            proof {
                assert(self@[i as int] == (self.leads@[i as int].0@, positions_view(
                    self.leads@[i as int].1@,
                )));
            }
            names.push(self.leads[i].0.clone());
            i += 1;
        }
        names
    }
}

} // verus!
