use leads::command::{Command, Outcome};
use leads::error::Error;
use leads::lead::Lead;
use leads::names::CompanyName;
use leads::store::Leads;
use leads::time::Timestamp;

fn company(name: &str) -> CompanyName {
    CompanyName::from(name.to_string())
}

fn t(millis: i64) -> Timestamp {
    Timestamp::new(millis)
}

#[test]
fn resolve_sole_position_without_index() {
    let mut db = Leads::new();
    db.new_lead(company("Acme"), "Engineer".to_string(), "acme.com/jobs/1".to_string());
    let lead = db.get(&company("Acme"), None).unwrap();
    assert_eq!(lead.position, "Engineer");
    assert_eq!(lead.source, "acme.com/jobs/1");
}

#[test]
fn resolve_without_index_is_ambiguous_for_two_positions() {
    let mut db = Leads::new();
    db.new_lead(company("Acme"), "Engineer".to_string(), "a".to_string());
    db.new_lead(company("Acme"), "Manager".to_string(), "b".to_string());
    assert_eq!(db.get(&company("Acme"), None).unwrap_err(), Error::Ambiguous(2));
}

#[test]
fn resolve_unknown_company_is_not_found() {
    let db = Leads::new();
    assert_eq!(db.get(&company("Nowhere"), None).unwrap_err(), Error::NotFound);
    assert_eq!(db.get(&company("Nowhere"), Some(0)).unwrap_err(), Error::NotFound);
}

#[test]
fn resolve_with_index_out_of_range_iff_past_count() {
    let mut db = Leads::new();
    db.new_lead(company("Acme"), "Engineer".to_string(), "a".to_string());
    db.new_lead(company("Acme"), "Manager".to_string(), "b".to_string());
    assert_eq!(db.get(&company("Acme"), Some(1)).unwrap().position, "Manager");
    assert_eq!(db.get(&company("Acme"), Some(2)).unwrap_err(), Error::OutOfRange(2, 2));
    assert_eq!(db.get(&company("Acme"), Some(9)).unwrap_err(), Error::OutOfRange(2, 9));
}

#[test]
fn new_lead_returns_position_indices_in_order() {
    let mut db = Leads::new();
    let i = db.new_lead(company("Acme"), "Engineer".to_string(), "acme.com/jobs/1".to_string());
    let j = db.new_lead(company("Acme"), "Manager".to_string(), "acme.com/jobs/2".to_string());
    let k = db.new_lead(company("Other"), "Analyst".to_string(), "other".to_string());
    assert_eq!(i, 0);
    assert_eq!(j, 1);
    assert_eq!(k, 0);
}

#[test]
fn two_leads_at_one_company_keep_append_order() {
    let mut db = Leads::new();
    db.new_lead(company("Acme"), "Engineer".to_string(), "acme.com/jobs/1".to_string());
    db.new_lead(company("Acme"), "Manager".to_string(), "acme.com/jobs/2".to_string());
    assert_eq!(db.leads.len(), 1);
    let positions = &db.leads[0].1;
    assert_eq!(positions.len(), 2);
    assert_eq!(positions[0].position, "Engineer");
    assert_eq!(positions[1].position, "Manager");
    assert_eq!(db.get(&company("Acme"), None).unwrap_err(), Error::Ambiguous(2));
    assert_eq!(db.get(&company("Acme"), Some(1)).unwrap().position, "Manager");
}

#[test]
fn get_mut_reaches_the_indexed_position() {
    let mut db = Leads::new();
    db.push_lead(company("Acme"), Lead::new_at("Engineer".to_string(), "a".to_string(), t(0)));
    db.push_lead(company("Acme"), Lead::new_at("Manager".to_string(), "b".to_string(), t(0)));
    let lead = db.get_mut(&company("Acme"), Some(0)).unwrap();
    lead.add_status(t(50), "Phone screen".to_string());
    let seen = db.get(&company("Acme"), Some(0)).unwrap();
    let last = seen.status_updates.last().unwrap();
    assert_eq!(last.0, t(50));
    assert_eq!(last.1, "Phone screen");
    let other = db.get(&company("Acme"), Some(1)).unwrap();
    assert!(!other.status_updates.iter().any(|e| e.1 == "Phone screen"));
}

#[test]
fn close_removes_one_position_and_keeps_company_while_some_remain() {
    let mut db = Leads::new();
    db.push_lead(company("Acme"), Lead::new_at("Engineer".to_string(), "a".to_string(), t(0)));
    db.push_lead(company("Acme"), Lead::new_at("Manager".to_string(), "b".to_string(), t(0)));
    let closed = db.close_lead(t(700), &company("Acme"), Some(0), "Rejected".to_string()).unwrap();
    assert_eq!(closed.position, "Engineer");
    assert_eq!(closed.status_updates.last().unwrap().1, "Closed: Rejected");
    // the later position shifted down; the company entry stays
    let rest = db.get(&company("Acme"), None).unwrap();
    assert_eq!(rest.position, "Manager");
}

#[test]
fn closing_the_last_position_removes_the_company() {
    let mut db = Leads::new();
    db.push_lead(
        company("Acme"),
        Lead::new_at("Engineer".to_string(), "acme.com/jobs/1".to_string(), t(0)),
    );
    let mut archive = Leads::new();
    let closed = db.close_lead(t(900), &company("Acme"), None, "Rejected".to_string()).unwrap();
    assert_eq!(db.get(&company("Acme"), None).unwrap_err(), Error::NotFound);
    assert_eq!(db.leads.len(), 0);
    archive.push_lead(company("Acme"), closed);
    let kept = archive.get(&company("Acme"), None).unwrap();
    assert_eq!(kept.position, "Engineer");
    assert_eq!(kept.status_updates.last().unwrap().1, "Closed: Rejected");
}

#[test]
fn close_errors_leave_the_store_alone() {
    let mut db = Leads::new();
    db.new_lead(company("Acme"), "Engineer".to_string(), "a".to_string());
    db.new_lead(company("Acme"), "Manager".to_string(), "b".to_string());
    assert_eq!(
        db.close_lead(t(1), &company("Acme"), None, "x".to_string()).unwrap_err(),
        Error::Ambiguous(2)
    );
    assert_eq!(
        db.close_lead(t(1), &company("Acme"), Some(2), "x".to_string()).unwrap_err(),
        Error::OutOfRange(2, 2)
    );
    assert_eq!(
        db.close_lead(t(1), &company("Else"), None, "x".to_string()).unwrap_err(),
        Error::NotFound
    );
    assert_eq!(db.leads[0].1.len(), 2);
}

#[test]
fn companies_lists_every_company_once() {
    let mut db = Leads::new();
    db.new_lead(company("Acme"), "Engineer".to_string(), "a".to_string());
    db.new_lead(company("Acme"), "Manager".to_string(), "b".to_string());
    db.new_lead(company("Other"), "Analyst".to_string(), "c".to_string());
    let names = db.companies();
    assert_eq!(names.len(), 2);
    assert_eq!(names[0].as_str(), "Acme");
    assert_eq!(names[1].as_str(), "Other");
}

#[test]
fn execute_new_creates_and_reports_the_index() {
    let mut db = Leads::new();
    let cmd = Command::New {
        company: company("Acme"),
        position: "Engineer".to_string(),
        source: "acme.com/jobs/1".to_string(),
    };
    let out = cmd.execute(t(10), &mut db).unwrap();
    assert!(matches!(out, Outcome::Created { index: 0 }));
    assert!(out.should_commit());
    assert_eq!(db.get(&company("Acme"), None).unwrap().position, "Engineer");
}

#[test]
fn execute_status_writes_at_the_command_time() {
    let mut db = Leads::new();
    db.push_lead(company("Acme"), Lead::new_at("Engineer".to_string(), "a".to_string(), t(0)));
    let cmd = Command::Status {
        company: company("Acme"),
        index: None,
        status: "On site".to_string(),
    };
    let out = cmd.execute(t(42), &mut db).unwrap();
    assert!(matches!(out, Outcome::Updated));
    let lead = db.get(&company("Acme"), None).unwrap();
    assert_eq!(lead.status_updates.last().unwrap(), &(t(42), "On site".to_string()));
}

#[test]
fn execute_close_hands_the_lead_back_for_archiving() {
    let mut db = Leads::new();
    db.push_lead(company("Acme"), Lead::new_at("Engineer".to_string(), "a".to_string(), t(0)));
    let cmd = Command::Close { company: company("Acme"), index: None, reason: "Rejected".to_string() };
    match cmd.execute(t(5), &mut db).unwrap() {
        Outcome::Closed { company: c, lead } => {
            assert_eq!(c.as_str(), "Acme");
            assert_eq!(lead.status_updates.last().unwrap().1, "Closed: Rejected");
        }
        _ => panic!("expected a closed lead"),
    }
    assert_eq!(db.leads.len(), 0);
}

#[test]
fn execute_todo_done_past_the_end_is_not_found() {
    let mut db = Leads::new();
    db.push_lead(company("Acme"), Lead::new_at("Engineer".to_string(), "a".to_string(), t(0)));
    let cmd = Command::TodoDone { company: company("Acme"), index: None, task: 0 };
    assert_eq!(cmd.execute(t(5), &mut db).unwrap_err(), Error::NotFound);
}

#[test]
fn execute_show_copies_the_lead_and_discards() {
    let mut db = Leads::new();
    db.push_lead(company("Acme"), Lead::new_at("Engineer".to_string(), "a".to_string(), t(0)));
    let cmd = Command::Show { company: company("Acme"), index: None };
    match cmd.execute(t(5), &mut db).unwrap() {
        Outcome::Shown { lead } => {
            assert_eq!(lead.position, "Engineer");
            assert!(!Outcome::Shown { lead }.should_commit());
        }
        _ => panic!("expected a shown lead"),
    }
}

#[test]
fn execute_show_all_and_self_check_touch_nothing() {
    let mut db = Leads::new();
    db.push_lead(company("Acme"), Lead::new_at("Engineer".to_string(), "a".to_string(), t(0)));
    match Command::ShowAll.execute(t(5), &mut db).unwrap() {
        Outcome::Listed { companies } => {
            assert_eq!(companies.len(), 1);
            assert_eq!(companies[0].as_str(), "Acme");
        }
        _ => panic!("expected the company listing"),
    }
    let out = Command::SelfCheck.execute(t(5), &mut db).unwrap();
    assert!(matches!(out, Outcome::Checked));
    assert!(!out.should_commit());
    assert_eq!(db.leads[0].1.len(), 1);
}

#[test]
fn execute_note_add_files_under_the_category() {
    let mut db = Leads::new();
    db.push_lead(company("Acme"), Lead::new_at("Engineer".to_string(), "a".to_string(), t(0)));
    let cmd = Command::NoteAdd {
        company: company("Acme"),
        index: None,
        category: "recruiter".to_string(),
        note: "emailed".to_string(),
    };
    let out = cmd.execute(t(5), &mut db).unwrap();
    assert!(matches!(out, Outcome::Updated));
    let lead = db.get(&company("Acme"), None).unwrap();
    assert_eq!(lead.notes.len(), 1);
    assert_eq!(lead.notes[0].0, "recruiter");
    assert_eq!(lead.notes[0].1, vec!["emailed".to_string()]);
}

#[test]
fn execute_todo_add_then_done_round_out_the_task() {
    let mut db = Leads::new();
    db.push_lead(company("Acme"), Lead::new_at("Engineer".to_string(), "a".to_string(), t(0)));
    let add = Command::TodoAdd {
        company: company("Acme"),
        index: None,
        action: "Send resume".to_string(),
        deadline: t(1_000),
    };
    add.execute(t(10), &mut db).unwrap();
    assert_eq!(db.get(&company("Acme"), None).unwrap().todo.len(), 1);
    let done = Command::TodoDone { company: company("Acme"), index: None, task: 0 };
    done.execute(t(20), &mut db).unwrap();
    let lead = db.get(&company("Acme"), None).unwrap();
    assert!(lead.todo.is_empty());
    assert_eq!(lead.status_updates.last().unwrap(), &(t(20), "DONE: Send resume".to_string()));
}

#[test]
fn execute_wait_add_then_done_round_out_the_task() {
    let mut db = Leads::new();
    db.push_lead(company("Acme"), Lead::new_at("Engineer".to_string(), "a".to_string(), t(0)));
    let add = Command::WaitAdd {
        company: company("Acme"),
        index: None,
        action: "Offer letter".to_string(),
        expected: Some(t(1_000)),
    };
    add.execute(t(10), &mut db).unwrap();
    let done = Command::WaitDone { company: company("Acme"), index: None, task: 0 };
    done.execute(t(20), &mut db).unwrap();
    let lead = db.get(&company("Acme"), None).unwrap();
    assert!(lead.wait.is_empty());
    assert_eq!(lead.status_updates.last().unwrap(), &(t(20), "RECEIVED: Offer letter".to_string()));
}

#[test]
fn execute_errors_surface_the_resolution_failure() {
    let mut db = Leads::new();
    let cmd = Command::Status {
        company: company("Nowhere"),
        index: None,
        status: "x".to_string(),
    };
    assert_eq!(cmd.execute(t(5), &mut db).unwrap_err(), Error::NotFound);
    db.push_lead(company("Acme"), Lead::new_at("Engineer".to_string(), "a".to_string(), t(0)));
    db.push_lead(company("Acme"), Lead::new_at("Manager".to_string(), "b".to_string(), t(0)));
    let cmd = Command::Status { company: company("Acme"), index: None, status: "x".to_string() };
    assert_eq!(cmd.execute(t(5), &mut db).unwrap_err(), Error::Ambiguous(2));
    let cmd = Command::Status { company: company("Acme"), index: Some(7), status: "x".to_string() };
    assert_eq!(cmd.execute(t(5), &mut db).unwrap_err(), Error::OutOfRange(2, 7));
}
