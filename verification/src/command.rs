use vstd::prelude::*;

use crate::error::Error;
use crate::lead::{fresh_lead, note_insert, Lead, LeadView, TodoView, WaitView};
use crate::names::CompanyName;
use crate::store::{
    company_index, lead_added, lead_closed, lemma_updated_wf, resolved_index, resolved_lead,
    Leads,
};
use crate::time::Timestamp;
use crate::timeline::timeline_insert;

verus! {

/// One fully parsed command, dispatched as a whole: adding a kind of
/// command is an enumeration change, checked at compile time.
///
/// Wherever a command targets one lead, `company` names it and `index`
/// picks among several positions at that company, under the resolution
/// rule of [`resolved_lead`].
#[derive(Debug)]
pub enum Command {
    /// Open a new lead for a position at a company.
    New { company: CompanyName, position: String, source: String },
    /// Close a position; the detached lead is handed back for archiving.
    Close { company: CompanyName, index: Option<usize>, reason: String },
    /// Append a note under a category of the resolved lead.
    NoteAdd { company: CompanyName, index: Option<usize>, category: String, note: String },
    /// Write a status entry into the resolved lead's timeline at the
    /// command's time.
    Status { company: CompanyName, index: Option<usize>, status: String },
    /// Record a task the candidate owes, with its deadline.
    TodoAdd { company: CompanyName, index: Option<usize>, action: String, deadline: Timestamp },
    /// Complete (and drop) the todo entry at `task`.
    TodoDone { company: CompanyName, index: Option<usize>, task: usize },
    /// Record a task the counterparty owes, with an optional due time.
    WaitAdd {
        company: CompanyName,
        index: Option<usize>,
        action: String,
        expected: Option<Timestamp>,
    },
    /// Complete (and drop) the wait entry at `task`.
    WaitDone { company: CompanyName, index: Option<usize>, task: usize },
    /// Read one lead back, without touching it.
    Show { company: CompanyName, index: Option<usize> },
    /// List the companies on file, without touching them.
    ShowAll,
    /// Confirm the tool runs; touches nothing.
    SelfCheck,
}

/// What a successful command hands back to the caller, which owns all
/// output and persistence.
#[derive(Debug)]
pub enum Outcome {
    /// The new lead stands at `index` among its company's positions.
    Created { index: usize },
    /// The closed lead, detached from the store; the caller is
    /// responsible for filing it into the archive store.
    Closed { company: CompanyName, lead: Lead },
    /// The resolved lead was mutated in place.
    Updated,
    /// A copy of the resolved lead.
    Shown { lead: Lead },
    /// The companies on file, in listing order.
    Listed { companies: Vec<CompanyName> },
    /// Nothing happened; the tool merely reports itself alive.
    Checked,
}

impl Outcome {
    /// Whether the store changed, so the caller must write it back; a
    /// read-only outcome must not rewrite the file.
    pub open spec fn commits(&self) -> bool {
        match *self {
            Outcome::Created { .. } => true,
            Outcome::Closed { .. } => true,
            Outcome::Updated => true,
            Outcome::Shown { .. } => false,
            Outcome::Listed { .. } => false,
            Outcome::Checked => false,
        }
    }

    pub fn should_commit(&self) -> (b: bool)
        ensures
            b == self.commits(),
    {
        match self {
            Outcome::Created { .. } => true,
            Outcome::Closed { .. } => true,
            Outcome::Updated => true,
            Outcome::Shown { .. } => false,
            Outcome::Listed { .. } => false,
            Outcome::Checked => false,
        }
    }
}

/// The resolved lead of `name` was replaced by `lv1`; every other
/// position and company stands untouched.
pub open spec fn lead_updated(
    s0: Seq<(Seq<char>, Seq<LeadView>)>,
    s1: Seq<(Seq<char>, Seq<LeadView>)>,
    name: Seq<char>,
    index: Option<usize>,
    lv1: LeadView,
) -> bool {
    let ci = company_index(s0, name);
    s1 == s0.update(ci, (name, s0[ci].1.update(resolved_index(index), lv1)))
}

impl Command {
    /// Runs the command against the store: resolves its target, applies
    /// the one mutation (or read) it calls for, and reports the outcome.
    /// On any error the store is left exactly as it was, so the caller
    /// can safely skip rewriting it.
    pub fn execute(self, now: Timestamp, db: &mut Leads) -> (r: Result<Outcome, Error>)
        requires
            old(db).wf(),
        ensures
            final(db).wf(),
            (match self {
                Command::New { company, position, source } => (match r {
                    Result::Ok(out) => out matches Outcome::Created { index }
                        && exists|created: i64|
                        lead_added(
                            old(db)@,
                            final(db)@,
                            company@,
                            fresh_lead(position@, source@, created),
                            index as int,
                        ),
                    Result::Err(_) => false,
                }),
                Command::Close { company, index, reason } => (match r {
                    Result::Ok(out) => out matches Outcome::Closed { company: c, lead }
                        && c@ == company@ && lead.wf()
                        && resolved_lead(old(db)@, company@, index) is Ok
                        && lead_closed(
                        old(db)@,
                        final(db)@,
                        company@,
                        index,
                        now.millis,
                        reason@,
                        lead@,
                    ),
                    Result::Err(e) => resolved_lead(old(db)@, company@, index) == Result::Err::<
                        LeadView,
                        Error,
                    >(e) && final(db)@ == old(db)@,
                }),
                Command::NoteAdd { company, index, category, note } => (match r {
                    Result::Ok(out) => out matches Outcome::Updated && (match resolved_lead(
                        old(db)@,
                        company@,
                        index,
                    ) {
                        Result::Ok(lv0) => lead_updated(
                            old(db)@,
                            final(db)@,
                            company@,
                            index,
                            (LeadView { notes: note_insert(lv0.notes, category@, note@), ..lv0 }),
                        ),
                        Result::Err(_) => false,
                    }),
                    Result::Err(e) => resolved_lead(old(db)@, company@, index) == Result::Err::<
                        LeadView,
                        Error,
                    >(e) && final(db)@ == old(db)@,
                }),
                Command::Status { company, index, status } => (match r {
                    Result::Ok(out) => out matches Outcome::Updated && (match resolved_lead(
                        old(db)@,
                        company@,
                        index,
                    ) {
                        Result::Ok(lv0) => lead_updated(
                            old(db)@,
                            final(db)@,
                            company@,
                            index,
                            (LeadView {
                                status: timeline_insert(lv0.status, now.millis, status@),
                                ..lv0
                            }),
                        ),
                        Result::Err(_) => false,
                    }),
                    Result::Err(e) => resolved_lead(old(db)@, company@, index) == Result::Err::<
                        LeadView,
                        Error,
                    >(e) && final(db)@ == old(db)@,
                }),
                Command::TodoAdd { company, index, action, deadline } => (match r {
                    Result::Ok(out) => out matches Outcome::Updated && (match resolved_lead(
                        old(db)@,
                        company@,
                        index,
                    ) {
                        Result::Ok(lv0) => lead_updated(
                            old(db)@,
                            final(db)@,
                            company@,
                            index,
                            (LeadView {
                                status: timeline_insert(
                                    lv0.status,
                                    now.millis,
                                    "TODO: "@ + action@,
                                ),
                                todo: lv0.todo.push(
                                    TodoView { action: action@, deadline: deadline.millis },
                                ),
                                ..lv0
                            }),
                        ),
                        Result::Err(_) => false,
                    }),
                    Result::Err(e) => resolved_lead(old(db)@, company@, index) == Result::Err::<
                        LeadView,
                        Error,
                    >(e) && final(db)@ == old(db)@,
                }),
                Command::TodoDone { company, index, task } => (match r {
                    Result::Ok(out) => out matches Outcome::Updated && (match resolved_lead(
                        old(db)@,
                        company@,
                        index,
                    ) {
                        Result::Ok(lv0) => task < lv0.todo.len() && lead_updated(
                            old(db)@,
                            final(db)@,
                            company@,
                            index,
                            (LeadView {
                                status: timeline_insert(
                                    lv0.status,
                                    now.millis,
                                    "DONE: "@ + lv0.todo[task as int].action,
                                ),
                                todo: lv0.todo.remove(task as int),
                                ..lv0
                            }),
                        ),
                        Result::Err(_) => false,
                    }),
                    Result::Err(e) => final(db)@ == old(db)@ && (match resolved_lead(
                        old(db)@,
                        company@,
                        index,
                    ) {
                        Result::Ok(lv0) => task >= lv0.todo.len() && e == Error::NotFound,
                        Result::Err(e0) => e == e0,
                    }),
                }),
                Command::WaitAdd { company, index, action, expected } => (match r {
                    Result::Ok(out) => out matches Outcome::Updated && (match resolved_lead(
                        old(db)@,
                        company@,
                        index,
                    ) {
                        Result::Ok(lv0) => lead_updated(
                            old(db)@,
                            final(db)@,
                            company@,
                            index,
                            (LeadView {
                                status: timeline_insert(
                                    lv0.status,
                                    now.millis,
                                    "WAITING: "@ + action@,
                                ),
                                wait: lv0.wait.push(
                                    WaitView {
                                        action: action@,
                                        expected: match expected {
                                            Option::Some(t) => Option::Some(t.millis),
                                            Option::None => Option::None,
                                        },
                                    },
                                ),
                                ..lv0
                            }),
                        ),
                        Result::Err(_) => false,
                    }),
                    Result::Err(e) => resolved_lead(old(db)@, company@, index) == Result::Err::<
                        LeadView,
                        Error,
                    >(e) && final(db)@ == old(db)@,
                }),
                Command::WaitDone { company, index, task } => (match r {
                    Result::Ok(out) => out matches Outcome::Updated && (match resolved_lead(
                        old(db)@,
                        company@,
                        index,
                    ) {
                        Result::Ok(lv0) => task < lv0.wait.len() && lead_updated(
                            old(db)@,
                            final(db)@,
                            company@,
                            index,
                            (LeadView {
                                status: timeline_insert(
                                    lv0.status,
                                    now.millis,
                                    "RECEIVED: "@ + lv0.wait[task as int].action,
                                ),
                                wait: lv0.wait.remove(task as int),
                                ..lv0
                            }),
                        ),
                        Result::Err(_) => false,
                    }),
                    Result::Err(e) => final(db)@ == old(db)@ && (match resolved_lead(
                        old(db)@,
                        company@,
                        index,
                    ) {
                        Result::Ok(lv0) => task >= lv0.wait.len() && e == Error::NotFound,
                        Result::Err(e0) => e == e0,
                    }),
                }),
                Command::Show { company, index } => (match r {
                    Result::Ok(out) => out matches Outcome::Shown { lead } && resolved_lead(
                        old(db)@,
                        company@,
                        index,
                    ) == Result::Ok::<LeadView, Error>(lead@) && final(db)@ == old(db)@,
                    Result::Err(e) => resolved_lead(old(db)@, company@, index) == Result::Err::<
                        LeadView,
                        Error,
                    >(e) && final(db)@ == old(db)@,
                }),
                Command::ShowAll => (match r {
                    Result::Ok(out) => out matches Outcome::Listed { companies }
                        && companies@.len() == old(db)@.len() && (forall|i: int|
                        0 <= i < companies@.len() ==> companies@[i]@ == old(db)@[i].0)
                        && final(db)@ == old(db)@,
                    Result::Err(_) => false,
                }),
                Command::SelfCheck => r == Result::Ok::<Outcome, Error>(Outcome::Checked)
                    && final(db)@ == old(db)@,
            }),
    {
        let ghost v0 = db@;
        match self {
            Command::New { company, position, source } => {
                let index = db.new_lead(company, position, source);
                Result::Ok(Outcome::Created { index })
            },
            Command::Close { company, index, reason } => {
                match db.close_lead(now, &company, index, reason) {
                    Result::Ok(lead) => Result::Ok(Outcome::Closed { company, lead }),
                    Result::Err(e) => Result::Err(e),
                }
            },
            Command::NoteAdd { company, index, category, note } => {
                let ghost cat = category@;
                let ghost nt = note@;
                match db.get_mut(&company, index) {
                    Result::Ok(lead) => {
                        lead.add_note(category, note);
                        proof {
                            let ci = company_index(v0, company@);
                            let pi = resolved_index(index);
                            let lv0 = v0[ci].1[pi];
                            lemma_updated_wf(
                                v0,
                                db@,
                                ci,
                                company@,
                                pi,
                                (LeadView { notes: note_insert(lv0.notes, cat, nt), ..lv0 }),
                            );
                        }
                        Result::Ok(Outcome::Updated)
                    },
                    Result::Err(e) => Result::Err(e),
                }
            },
            Command::Status { company, index, status } => {
                let ghost st = status@;
                match db.get_mut(&company, index) {
                    Result::Ok(lead) => {
                        lead.add_status(now, status);
                        proof {
                            let ci = company_index(v0, company@);
                            let pi = resolved_index(index);
                            let lv0 = v0[ci].1[pi];
                            lemma_updated_wf(
                                v0,
                                db@,
                                ci,
                                company@,
                                pi,
                                (LeadView {
                                    status: timeline_insert(lv0.status, now.millis, st),
                                    ..lv0
                                }),
                            );
                        }
                        Result::Ok(Outcome::Updated)
                    },
                    Result::Err(e) => Result::Err(e),
                }
            },
            Command::TodoAdd { company, index, action, deadline } => {
                let ghost a = action@;
                match db.get_mut(&company, index) {
                    Result::Ok(lead) => {
                        lead.add_todo(now, action, deadline);
                        proof {
                            let ci = company_index(v0, company@);
                            let pi = resolved_index(index);
                            let lv0 = v0[ci].1[pi];
                            lemma_updated_wf(
                                v0,
                                db@,
                                ci,
                                company@,
                                pi,
                                (LeadView {
                                    status: timeline_insert(
                                        lv0.status,
                                        now.millis,
                                        "TODO: "@ + a,
                                    ),
                                    todo: lv0.todo.push(
                                        TodoView { action: a, deadline: deadline.millis },
                                    ),
                                    ..lv0
                                }),
                            );
                        }
                        Result::Ok(Outcome::Updated)
                    },
                    Result::Err(e) => Result::Err(e),
                }
            },
            Command::TodoDone { company, index, task } => {
                match db.get_mut(&company, index) {
                    Result::Ok(lead) => {
                        match lead.complete_todo(now, task) {
                            Result::Ok(_) => {
                                proof {
                                    let ci = company_index(v0, company@);
                                    let pi = resolved_index(index);
                                    let lv0 = v0[ci].1[pi];
                                    lemma_updated_wf(
                                        v0,
                                        db@,
                                        ci,
                                        company@,
                                        pi,
                                        (LeadView {
                                            status: timeline_insert(
                                                lv0.status,
                                                now.millis,
                                                "DONE: "@ + lv0.todo[task as int].action,
                                            ),
                                            todo: lv0.todo.remove(task as int),
                                            ..lv0
                                        }),
                                    );
                                }
                                Result::Ok(Outcome::Updated)
                            },
                            Result::Err(e) => {
                                proof {
                                    let ci = company_index(v0, company@);
                                    let pi = resolved_index(index);
                                    assert(v0[ci].1.update(pi, v0[ci].1[pi]) =~= v0[ci].1);
                                    assert(db@ =~= v0);
                                }
                                Result::Err(e)
                            },
                        }
                    },
                    Result::Err(e) => Result::Err(e),
                }
            },
            Command::WaitAdd { company, index, action, expected } => {
                let ghost a = action@;
                let ghost exp = match expected {
                    Option::Some(t) => Option::Some(t.millis),
                    Option::None => Option::None,
                };
                match db.get_mut(&company, index) {
                    Result::Ok(lead) => {
                        lead.add_wait(now, action, expected);
                        proof {
                            let ci = company_index(v0, company@);
                            let pi = resolved_index(index);
                            let lv0 = v0[ci].1[pi];
                            lemma_updated_wf(
                                v0,
                                db@,
                                ci,
                                company@,
                                pi,
                                (LeadView {
                                    status: timeline_insert(
                                        lv0.status,
                                        now.millis,
                                        "WAITING: "@ + a,
                                    ),
                                    wait: lv0.wait.push(WaitView { action: a, expected: exp }),
                                    ..lv0
                                }),
                            );
                        }
                        Result::Ok(Outcome::Updated)
                    },
                    Result::Err(e) => Result::Err(e),
                }
            },
            Command::WaitDone { company, index, task } => {
                match db.get_mut(&company, index) {
                    Result::Ok(lead) => {
                        match lead.complete_wait(now, task) {
                            Result::Ok(_) => {
                                proof {
                                    let ci = company_index(v0, company@);
                                    let pi = resolved_index(index);
                                    let lv0 = v0[ci].1[pi];
                                    lemma_updated_wf(
                                        v0,
                                        db@,
                                        ci,
                                        company@,
                                        pi,
                                        (LeadView {
                                            status: timeline_insert(
                                                lv0.status,
                                                now.millis,
                                                "RECEIVED: "@ + lv0.wait[task as int].action,
                                            ),
                                            wait: lv0.wait.remove(task as int),
                                            ..lv0
                                        }),
                                    );
                                }
                                Result::Ok(Outcome::Updated)
                            },
                            Result::Err(e) => {
                                proof {
                                    let ci = company_index(v0, company@);
                                    let pi = resolved_index(index);
                                    assert(v0[ci].1.update(pi, v0[ci].1[pi]) =~= v0[ci].1);
                                    assert(db@ =~= v0);
                                }
                                Result::Err(e)
                            },
                        }
                    },
                    Result::Err(e) => Result::Err(e),
                }
            },
            Command::Show { company, index } => {
                match db.get(&company, index) {
                    Result::Ok(lead) => {
                        let copy = lead.clone();
                        Result::Ok(Outcome::Shown { lead: copy })
                    },
                    Result::Err(e) => Result::Err(e),
                }
            },
            Command::ShowAll => {
                let companies = db.companies();
                Result::Ok(Outcome::Listed { companies })
            },
            Command::SelfCheck => Result::Ok(Outcome::Checked),
        }
    }
}

} // verus!
