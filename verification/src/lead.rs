use vstd::prelude::*;

use crate::error::Error;
use crate::names::InterviewName;
use crate::time::Timestamp;
use crate::timeline::{
    lemma_insert_at, lemma_insert_sorted, time_sorted, timeline_insert,
};

verus! {

// ---------------------------------------------------------------------
// The mathematical model: what a lead is, to the contracts.
// ---------------------------------------------------------------------

/// Model of one interview round: free-text entries taken before and after.
#[verifier::ext_equal]
pub ghost struct InterviewView {
    pub pre_notes: Seq<Seq<char>>,
    pub post_notes: Seq<Seq<char>>,
}

/// Model of one task the candidate owes.
#[verifier::ext_equal]
pub ghost struct TodoView {
    pub action: Seq<char>,
    pub deadline: i64,
}

/// Model of one task the counterparty owes; `expected` is an optional due
/// time.
#[verifier::ext_equal]
pub ghost struct WaitView {
    pub action: Seq<char>,
    pub expected: Option<i64>,
}

/// Model of a whole lead. `notes` keeps category creation order and entry
/// order per category; `status` is the timeline, ascending by time.
#[verifier::ext_equal]
pub ghost struct LeadView {
    pub position: Seq<char>,
    pub source: Seq<char>,
    pub notes: Seq<(Seq<char>, Seq<Seq<char>>)>,
    pub interviews: Seq<(Seq<char>, InterviewView)>,
    pub red_flags: Seq<Seq<char>>,
    pub status: Seq<(i64, Seq<char>)>,
    pub todo: Seq<TodoView>,
    pub wait: Seq<WaitView>,
}

pub open spec fn strings_view(v: Seq<String>) -> Seq<Seq<char>> {
    v.map_values(|s: String| s@)
}

pub open spec fn notes_view(v: Seq<(String, Vec<String>)>) -> Seq<(Seq<char>, Seq<Seq<char>>)> {
    v.map_values(|p: (String, Vec<String>)| (p.0@, strings_view(p.1@)))
}

pub open spec fn interviews_view(v: Seq<(InterviewName, Interview)>) -> Seq<
    (Seq<char>, InterviewView),
> {
    v.map_values(|p: (InterviewName, Interview)| (p.0@, p.1@))
}

pub open spec fn status_view(v: Seq<(Timestamp, String)>) -> Seq<(i64, Seq<char>)> {
    v.map_values(|p: (Timestamp, String)| (p.0.millis, p.1@))
}

pub open spec fn todos_view(v: Seq<Todo>) -> Seq<TodoView> {
    v.map_values(|t: Todo| t@)
}

pub open spec fn waits_view(v: Seq<Wait>) -> Seq<WaitView> {
    v.map_values(|w: Wait| w@)
}

/// No note category appears under two entries.
pub open spec fn note_keys_unique(notes: Seq<(Seq<char>, Seq<Seq<char>>)>) -> bool {
    forall|i: int, j: int| 0 <= i < j < notes.len() ==> notes[i].0 != notes[j].0
}

/// A lead is well formed when its timeline is strictly ascending and its
/// note categories are distinct.
pub open spec fn lead_view_wf(v: LeadView) -> bool {
    time_sorted(v.status) && note_keys_unique(v.notes)
}

/// Appending a note: the entry joins its category, and a fresh category is
/// created at the end on first use.
pub open spec fn note_insert(
    notes: Seq<(Seq<char>, Seq<Seq<char>>)>,
    category: Seq<char>,
    note: Seq<char>,
) -> Seq<(Seq<char>, Seq<Seq<char>>)>
    decreases notes.len(),
{
    if notes.len() == 0 {
        seq![(category, seq![note])]
    } else if notes[0].0 == category {
        seq![(notes[0].0, notes[0].1.push(note))] + notes.drop_first()
    } else {
        seq![notes[0]] + note_insert(notes.drop_first(), category, note)
    }
}

/// Where the note lands, stated from the first entry of its category (or
/// from the end, when the category is new).
pub proof fn lemma_note_insert_at(
    notes: Seq<(Seq<char>, Seq<Seq<char>>)>,
    category: Seq<char>,
    note: Seq<char>,
    i: int,
)
    requires
        0 <= i <= notes.len(),
        forall|k: int| 0 <= k < i ==> notes[k].0 != category,
        i < notes.len() ==> notes[i].0 == category,
    ensures
        i < notes.len() ==> note_insert(notes, category, note) == notes.update(
            i,
            (category, notes[i].1.push(note)),
        ),
        i == notes.len() ==> note_insert(notes, category, note) == notes.push(
            (category, seq![note]),
        ),
    decreases i,
{
    if i == 0 {
        if notes.len() == 0 {
            assert(note_insert(notes, category, note) =~= notes.push((category, seq![note])));
        } else {
            assert(note_insert(notes, category, note) =~= notes.update(
                0,
                (category, notes[0].1.push(note)),
            ));
        }
    } else {
        let rest = notes.drop_first();
        lemma_note_insert_at(rest, category, note, i - 1);
        if i < notes.len() {
            assert(note_insert(notes, category, note) =~= notes.update(
                i,
                (category, notes[i].1.push(note)),
            ));
        } else {
            assert(note_insert(notes, category, note) =~= notes.push((category, seq![note])));
        }
    }
}

/// The state of a lead the instant it is created: empty but for the seed
/// status entry.
pub open spec fn fresh_lead(position: Seq<char>, source: Seq<char>, created: i64) -> LeadView {
    LeadView {
        position: position,
        source: source,
        notes: Seq::empty(),
        interviews: Seq::empty(),
        red_flags: Seq::empty(),
        status: seq![(created, "Created"@)],
        todo: Seq::empty(),
        wait: Seq::empty(),
    }
}

// ---------------------------------------------------------------------
// The records themselves.
// ---------------------------------------------------------------------

/// One interview round of a lead.
#[derive(Debug)]
pub struct Interview {
    pub pre_notes: Vec<String>,
    pub post_notes: Vec<String>,
}

impl View for Interview {
    type V = InterviewView;

    open spec fn view(&self) -> InterviewView {
        InterviewView {
            pre_notes: strings_view(self.pre_notes@),
            post_notes: strings_view(self.post_notes@),
        }
    }
}

impl Clone for Interview {
    fn clone(&self) -> (r: Self)
        ensures
            r@ == self@,
    {
        let r = Interview {
            pre_notes: clone_strings(&self.pre_notes),
            post_notes: clone_strings(&self.post_notes),
        };
        proof {
            assert(r@ =~= self@);
        }
        r
    }
}

/// A task the candidate owes, with its deadline.
#[derive(Debug)]
pub struct Todo {
    pub action: String,
    pub deadline: Timestamp,
}

impl View for Todo {
    type V = TodoView;

    open spec fn view(&self) -> TodoView {
        TodoView { action: self.action@, deadline: self.deadline.millis }
    }
}

impl Clone for Todo {
    fn clone(&self) -> (r: Self)
        ensures
            r@ == self@,
    {
        Todo { action: self.action.clone(), deadline: self.deadline }
    }
}

/// A task the counterparty owes, with the time an answer is expected by,
/// if one was given.
#[derive(Debug)]
pub struct Wait {
    pub action: String,
    pub expected: Option<Timestamp>,
}

impl View for Wait {
    type V = WaitView;

    open spec fn view(&self) -> WaitView {
        WaitView {
            action: self.action@,
            expected: match self.expected {
                Some(t) => Some(t.millis),
                None => None,
            },
        }
    }
}

impl Clone for Wait {
    fn clone(&self) -> (r: Self)
        ensures
            r@ == self@,
    {
        Wait { action: self.action.clone(), expected: self.expected }
    }
}

fn clone_strings(v: &Vec<String>) -> (r: Vec<String>)
    ensures
        strings_view(r@) == strings_view(v@),
{
    let mut r: Vec<String> = Vec::new();
    let mut i: usize = 0;
    while i < v.len()
        invariant
            i <= v.len(),
            r@.len() == i,
            forall|k: int| 0 <= k < i ==> r@[k]@ == v@[k]@,
        decreases v.len() - i,
    {
        r.push(v[i].clone());
        i += 1;
    }
    proof {
        assert(strings_view(r@) =~= strings_view(v@));
    }
    r
}

// ---------------------------------------------------------------------
// The lead record and its operations.
// ---------------------------------------------------------------------

/// One position at one company: the unit every operation mutates.
///
/// `position` and `source` are set at creation and never change; every
/// other operation also writes a narrative entry into the status timeline,
/// which is the authoritative log of the application.
#[derive(Debug)]
pub struct Lead {
    pub position: String,
    pub source: String,
    pub notes: Vec<(String, Vec<String>)>,
    pub interviews: Vec<(InterviewName, Interview)>,
    pub red_flags: Vec<String>,
    pub status_updates: Vec<(Timestamp, String)>,
    pub todo: Vec<Todo>,
    pub wait: Vec<Wait>,
}

impl View for Lead {
    type V = LeadView;

    open spec fn view(&self) -> LeadView {
        LeadView {
            position: self.position@,
            source: self.source@,
            notes: notes_view(self.notes@),
            interviews: interviews_view(self.interviews@),
            red_flags: strings_view(self.red_flags@),
            status: status_view(self.status_updates@),
            todo: todos_view(self.todo@),
            wait: waits_view(self.wait@),
        }
    }
}

impl Lead {
    pub open spec fn wf(&self) -> bool {
        lead_view_wf(self@)
    }

    /// A fresh lead whose timeline already reads "Created" at `created`.
    pub fn new_at(position: String, source: String, created: Timestamp) -> (lead: Lead)
        ensures
            lead.wf(),
            lead@ == fresh_lead(position@, source@, created.millis),
    {
        let ghost p = position@;
        let ghost s = source@;
        let mut status_updates: Vec<(Timestamp, String)> = Vec::new();
        status_updates.push((created, String::from_str("Created")));
        let lead = Lead {
            position,
            source,
            notes: Vec::new(),
            interviews: Vec::new(),
            red_flags: Vec::new(),
            status_updates,
            todo: Vec::new(),
            wait: Vec::new(),
        };
        proof {
            assert(lead@ =~~= fresh_lead(p, s, created.millis));
        }
        lead
    }

    /// A fresh lead, dated at the current instant: a lead cannot exist
    /// before it is created, so construction reads the clock itself rather
    /// than taking a caller-supplied time.
    pub fn new(position: String, source: String) -> (lead: Lead)
        ensures
            lead.wf(),
            exists|created: i64| lead@ == fresh_lead(position@, source@, created),
    {
        let ghost p = position@;
        let ghost s = source@;
        let created = crate::time::now();
        let lead = Lead::new_at(position, source, created);
        proof {
            assert(lead@ == fresh_lead(p, s, created.millis));
        }
        lead
    }

    /// Appends `note` under `category`, creating the category on first use.
    pub fn add_note(&mut self, category: String, note: String)
        requires
            old(self).wf(),
        ensures
            final(self).wf(),
            final(self)@ == (LeadView {
                notes: note_insert(old(self)@.notes, category@, note@),
                ..old(self)@
            }),
    {
        let ghost v0 = self@;
        let ghost n0 = self.notes@;
        let ghost cat = category@;
        let ghost nt = note@;
        let mut i: usize = 0;
        while i < self.notes.len() && self.notes[i].0 != category
            invariant
                i <= self.notes.len(),
                self.notes@ == n0,
                forall|k: int| 0 <= k < i ==> n0[k].0@ != category@,
            decreases self.notes.len() - i,
        {
            i += 1;
        }
        proof {
            assert forall|k: int| 0 <= k < i implies v0.notes[k].0 != cat by {
                assert(v0.notes[k] == (n0[k].0@, strings_view(n0[k].1@)));
            }
            if i < n0.len() {
                assert(v0.notes[i as int] == (n0[i as int].0@, strings_view(n0[i as int].1@)));
            }
            lemma_note_insert_at(v0.notes, cat, nt, i as int);
        }
        if i < self.notes.len() {
            let mut pair = self.notes.remove(i);
            pair.1.push(note);
            self.notes.insert(i, pair);
            proof {
                assert(self.notes@ =~= n0.update(i as int, self.notes@[i as int]));
                assert(notes_view(self.notes@) =~~= v0.notes.update(
                    i as int,
                    (cat, v0.notes[i as int].1.push(nt)),
                ));
                assert(self@ =~~= (LeadView {
                    notes: note_insert(v0.notes, cat, nt),
                    ..v0
                }));
                assert forall|a: int, b: int|
                    0 <= a < b < self@.notes.len() implies self@.notes[a].0 != self@.notes[b].0 by {
                    assert(self@.notes[a].0 == v0.notes[a].0);
                    assert(self@.notes[b].0 == v0.notes[b].0);
                }
            }
        } else {
            let mut entries: Vec<String> = Vec::new();
            entries.push(note);
            self.notes.push((category, entries));
            proof {
                assert(notes_view(self.notes@) =~~= v0.notes.push((cat, seq![nt])));
                assert(self@ =~~= (LeadView {
                    notes: note_insert(v0.notes, cat, nt),
                    ..v0
                }));
                assert forall|a: int, b: int|
                    0 <= a < b < self@.notes.len() implies self@.notes[a].0 != self@.notes[b].0 by {
                    if b < v0.notes.len() {
                        assert(self@.notes[a].0 == v0.notes[a].0);
                        assert(self@.notes[b].0 == v0.notes[b].0);
                    } else {
                        assert(self@.notes[a].0 == v0.notes[a].0);
                        assert(self@.notes[b].0 == cat);
                    }
                }
            }
        }
    }

    /// Writes `status` into the timeline at `date`; an entry already dated
    /// exactly `date` is overwritten, never duplicated.
    pub fn add_status(&mut self, date: Timestamp, status: String)
        requires
            old(self).wf(),
        ensures
            final(self).wf(),
            final(self)@ == (LeadView {
                status: timeline_insert(old(self)@.status, date.millis, status@),
                ..old(self)@
            }),
    {
        let ghost v0 = self@;
        let ghost s0 = self.status_updates@;
        let ghost st = status@;
        let mut i: usize = 0;
        while i < self.status_updates.len() && self.status_updates[i].0.millis < date.millis
            invariant
                i <= self.status_updates.len(),
                self.status_updates@ == s0,
                forall|k: int| 0 <= k < i ==> s0[k].0.millis < date.millis,
            decreases self.status_updates.len() - i,
        {
            i += 1;
        }
        proof {
            assert forall|k: int| 0 <= k < i implies v0.status[k].0 < date.millis by {
                assert(v0.status[k] == (s0[k].0.millis, s0[k].1@));
            }
            if i < s0.len() {
                assert(v0.status[i as int] == (s0[i as int].0.millis, s0[i as int].1@));
            }
            lemma_insert_at(v0.status, date.millis, st, i as int);
            lemma_insert_sorted(v0.status, date.millis, st);
        }
        if i < self.status_updates.len() && self.status_updates[i].0.millis == date.millis {
            self.status_updates.set(i, (date, status));
            proof {
                assert(status_view(self.status_updates@) =~~= v0.status.update(
                    i as int,
                    (date.millis, st),
                ));
                assert(self@ =~~= (LeadView {
                    status: timeline_insert(v0.status, date.millis, st),
                    ..v0
                }));
            }
        } else {
            self.status_updates.insert(i, (date, status));
            proof {
                assert(status_view(self.status_updates@) =~~= v0.status.take(i as int) + seq![
                    (date.millis, st),
                ] + v0.status.skip(i as int));
                assert(self@ =~~= (LeadView {
                    status: timeline_insert(v0.status, date.millis, st),
                    ..v0
                }));
            }
        }
    }

    /// Records a new task the candidate owes, and logs "TODO: {action}" in
    /// the timeline at `updated_on`.
    pub fn add_todo(&mut self, updated_on: Timestamp, action: String, deadline: Timestamp)
        requires
            old(self).wf(),
        ensures
            final(self).wf(),
            final(self)@ == (LeadView {
                status: timeline_insert(old(self)@.status, updated_on.millis, "TODO: "@ + action@),
                todo: old(self)@.todo.push(
                    TodoView { action: action@, deadline: deadline.millis },
                ),
                ..old(self)@
            }),
    {
        let ghost v0 = self@;
        let ghost a = action@;
        let mut msg = String::from_str("TODO: ");
        msg.append(action.as_str());
        self.add_status(updated_on, msg);
        self.todo.push(Todo { action, deadline });
        proof {
            assert(todos_view(self.todo@) =~~= v0.todo.push(
                TodoView { action: a, deadline: deadline.millis },
            ));
            assert(self@ =~~= (LeadView {
                status: timeline_insert(v0.status, updated_on.millis, "TODO: "@ + a),
                todo: v0.todo.push(TodoView { action: a, deadline: deadline.millis }),
                ..v0
            }));
        }
    }

    /// Removes the todo entry at `index` (later entries shift left) and
    /// logs "DONE: {action}" at `updated_on`. Fails with `NotFound` when
    /// `index` points past the end of the list.
    pub fn complete_todo(&mut self, updated_on: Timestamp, index: usize) -> (r: Result<(), Error>)
        requires
            old(self).wf(),
        ensures
            final(self).wf(),
            index < old(self)@.todo.len() ==> r == Ok::<(), Error>(()) && final(self)@
                == (LeadView {
                status: timeline_insert(
                    old(self)@.status,
                    updated_on.millis,
                    "DONE: "@ + old(self)@.todo[index as int].action,
                ),
                todo: old(self)@.todo.remove(index as int),
                ..old(self)@
            }),
            index >= old(self)@.todo.len() ==> r == Err::<(), Error>(Error::NotFound)
                && final(self)@ == old(self)@,
    {
        let ghost v0 = self@;
        if index >= self.todo.len() {
            return Err(Error::NotFound);
        }
        let entry = self.todo.remove(index);
        proof {
            assert(entry@ == v0.todo[index as int]);
            assert(todos_view(self.todo@) =~~= v0.todo.remove(index as int));
        }
        let mut msg = String::from_str("DONE: ");
        msg.append(entry.action.as_str());
        self.add_status(updated_on, msg);
        proof {
            assert(self@ =~~= (LeadView {
                status: timeline_insert(
                    v0.status,
                    updated_on.millis,
                    "DONE: "@ + v0.todo[index as int].action,
                ),
                todo: v0.todo.remove(index as int),
                ..v0
            }));
        }
        Ok(())
    }

    /// Records a new task the counterparty owes, and logs
    /// "WAITING: {action}" in the timeline at `updated_on`.
    pub fn add_wait(&mut self, updated_on: Timestamp, action: String, expected: Option<Timestamp>)
        requires
            old(self).wf(),
        ensures
            final(self).wf(),
            final(self)@ == (LeadView {
                status: timeline_insert(
                    old(self)@.status,
                    updated_on.millis,
                    "WAITING: "@ + action@,
                ),
                wait: old(self)@.wait.push(
                    WaitView {
                        action: action@,
                        expected: match expected {
                            Some(t) => Some(t.millis),
                            None => None,
                        },
                    },
                ),
                ..old(self)@
            }),
    {
        let ghost v0 = self@;
        let ghost a = action@;
        let ghost e = match expected {
            Some(t) => Some(t.millis),
            None => None,
        };
        let mut msg = String::from_str("WAITING: ");
        msg.append(action.as_str());
        self.add_status(updated_on, msg);
        self.wait.push(Wait { action, expected });
        proof {
            assert(waits_view(self.wait@) =~~= v0.wait.push(WaitView { action: a, expected: e }));
            assert(self@ =~~= (LeadView {
                status: timeline_insert(v0.status, updated_on.millis, "WAITING: "@ + a),
                wait: v0.wait.push(WaitView { action: a, expected: e }),
                ..v0
            }));
        }
    }

    /// Removes the wait entry at `index` (later entries shift left) and
    /// logs "RECEIVED: {action}" at `updated_on`. Fails with `NotFound`
    /// when `index` points past the end of the list.
    pub fn complete_wait(&mut self, updated_on: Timestamp, index: usize) -> (r: Result<(), Error>)
        requires
            old(self).wf(),
        ensures
            final(self).wf(),
            index < old(self)@.wait.len() ==> r == Ok::<(), Error>(()) && final(self)@
                == (LeadView {
                status: timeline_insert(
                    old(self)@.status,
                    updated_on.millis,
                    "RECEIVED: "@ + old(self)@.wait[index as int].action,
                ),
                wait: old(self)@.wait.remove(index as int),
                ..old(self)@
            }),
            index >= old(self)@.wait.len() ==> r == Err::<(), Error>(Error::NotFound)
                && final(self)@ == old(self)@,
    {
        let ghost v0 = self@;
        if index >= self.wait.len() {
            return Err(Error::NotFound);
        }
        let entry = self.wait.remove(index);
        proof {
            assert(entry@ == v0.wait[index as int]);
            assert(waits_view(self.wait@) =~~= v0.wait.remove(index as int));
        }
        let mut msg = String::from_str("RECEIVED: ");
        msg.append(entry.action.as_str());
        self.add_status(updated_on, msg);
        proof {
            assert(self@ =~~= (LeadView {
                status: timeline_insert(
                    v0.status,
                    updated_on.millis,
                    "RECEIVED: "@ + v0.wait[index as int].action,
                ),
                wait: v0.wait.remove(index as int),
                ..v0
            }));
        }
        Ok(())
    }
}

// ---------------------------------------------------------------------
// Cloning, field by field, so that the copy provably models the same lead.
// ---------------------------------------------------------------------

fn clone_notes(v: &Vec<(String, Vec<String>)>) -> (r: Vec<(String, Vec<String>)>)
    ensures
        notes_view(r@) == notes_view(v@),
{
    let mut r: Vec<(String, Vec<String>)> = Vec::new();
    let mut i: usize = 0;
    while i < v.len()
        invariant
            i <= v.len(),
            r@.len() == i,
            forall|k: int|
                0 <= k < i ==> r@[k].0@ == v@[k].0@ && strings_view(r@[k].1@) == strings_view(
                    v@[k].1@,
                ),
        decreases v.len() - i,
    {
        let entry = &v[i];
        r.push((entry.0.clone(), clone_strings(&entry.1)));
        i += 1;
    }
    proof {
        assert(notes_view(r@) =~~= notes_view(v@));
    }
    r
}

fn clone_interviews(v: &Vec<(InterviewName, Interview)>) -> (r: Vec<(InterviewName, Interview)>)
    ensures
        interviews_view(r@) == interviews_view(v@),
{
    let mut r: Vec<(InterviewName, Interview)> = Vec::new();
    let mut i: usize = 0;
    while i < v.len()
        invariant
            i <= v.len(),
            r@.len() == i,
            forall|k: int| 0 <= k < i ==> r@[k].0@ == v@[k].0@ && r@[k].1@ == v@[k].1@,
        decreases v.len() - i,
    {
        let entry = &v[i];
        r.push((entry.0.clone(), entry.1.clone()));
        i += 1;
    }
    proof {
        assert(interviews_view(r@) =~~= interviews_view(v@));
    }
    r
}

fn clone_status(v: &Vec<(Timestamp, String)>) -> (r: Vec<(Timestamp, String)>)
    ensures
        status_view(r@) == status_view(v@),
{
    let mut r: Vec<(Timestamp, String)> = Vec::new();
    let mut i: usize = 0;
    while i < v.len()
        invariant
            i <= v.len(),
            r@.len() == i,
            forall|k: int| 0 <= k < i ==> r@[k].0 == v@[k].0 && r@[k].1@ == v@[k].1@,
        decreases v.len() - i,
    {
        let entry = &v[i];
        r.push((entry.0, entry.1.clone()));
        i += 1;
    }
    proof {
        assert(status_view(r@) =~~= status_view(v@));
    }
    r
}

fn clone_todos(v: &Vec<Todo>) -> (r: Vec<Todo>)
    ensures
        todos_view(r@) == todos_view(v@),
{
    let mut r: Vec<Todo> = Vec::new();
    let mut i: usize = 0;
    while i < v.len()
        invariant
            i <= v.len(),
            r@.len() == i,
            forall|k: int| 0 <= k < i ==> r@[k]@ == v@[k]@,
        decreases v.len() - i,
    {
        r.push(v[i].clone());
        i += 1;
    }
    proof {
        assert(todos_view(r@) =~~= todos_view(v@));
    }
    r
}

fn clone_waits(v: &Vec<Wait>) -> (r: Vec<Wait>)
    ensures
        waits_view(r@) == waits_view(v@),
{
    let mut r: Vec<Wait> = Vec::new();
    let mut i: usize = 0;
    while i < v.len()
        invariant
            i <= v.len(),
            r@.len() == i,
            forall|k: int| 0 <= k < i ==> r@[k]@ == v@[k]@,
        decreases v.len() - i,
    {
        r.push(v[i].clone());
        i += 1;
    }
    proof {
        assert(waits_view(r@) =~~= waits_view(v@));
    }
    r
}

impl Clone for Lead {
    /// The copy models the very same lead: equal view, field for field.
    fn clone(&self) -> (r: Self)
        ensures
            r@ == self@,
    {
        let r = Lead {
            position: self.position.clone(),
            source: self.source.clone(),
            notes: clone_notes(&self.notes),
            interviews: clone_interviews(&self.interviews),
            red_flags: clone_strings(&self.red_flags),
            status_updates: clone_status(&self.status_updates),
            todo: clone_todos(&self.todo),
            wait: clone_waits(&self.wait),
        };
        proof {
            assert(r@ =~~= self@);
        }
        r
    }
}

} // verus!
