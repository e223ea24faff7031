use leads::error::Error;
use leads::lead::Lead;
use leads::time::Timestamp;

fn t(millis: i64) -> Timestamp {
    Timestamp::new(millis)
}

fn lead() -> Lead {
    Lead::new_at("Engineer".to_string(), "acme.com/jobs/1".to_string(), t(0))
}

const DAY: i64 = 86_400_000;

#[test]
fn a_new_lead_starts_with_the_created_entry() {
    let lead = Lead::new("Engineer".to_string(), "acme.com/jobs/1".to_string());
    assert_eq!(lead.position, "Engineer");
    assert_eq!(lead.source, "acme.com/jobs/1");
    assert_eq!(lead.status_updates.len(), 1);
    assert_eq!(lead.status_updates[0].1, "Created");
    assert!(lead.notes.is_empty());
    assert!(lead.interviews.is_empty());
    assert!(lead.red_flags.is_empty());
    assert!(lead.todo.is_empty());
    assert!(lead.wait.is_empty());
}

#[test]
fn distinct_timestamps_keep_both_entries_in_time_order() {
    let mut l = lead();
    l.add_status(t(2_000), "second".to_string());
    l.add_status(t(1_000), "first".to_string());
    let got: Vec<(i64, &str)> =
        l.status_updates.iter().map(|e| (e.0.millis, e.1.as_str())).collect();
    assert_eq!(got, vec![(0, "Created"), (1_000, "first"), (2_000, "second")]);
}

#[test]
fn an_equal_timestamp_overwrites_instead_of_duplicating() {
    let mut l = lead();
    l.add_status(t(1_000), "first".to_string());
    l.add_status(t(1_000), "revised".to_string());
    let got: Vec<(i64, &str)> =
        l.status_updates.iter().map(|e| (e.0.millis, e.1.as_str())).collect();
    assert_eq!(got, vec![(0, "Created"), (1_000, "revised")]);
}

#[test]
fn notes_group_by_category_in_insertion_order() {
    let mut l = lead();
    l.add_note("recruiter".to_string(), "emailed".to_string());
    l.add_note("pay".to_string(), "asked about range".to_string());
    l.add_note("recruiter".to_string(), "called back".to_string());
    assert_eq!(l.notes.len(), 2);
    assert_eq!(l.notes[0].0, "recruiter");
    assert_eq!(l.notes[0].1, vec!["emailed".to_string(), "called back".to_string()]);
    assert_eq!(l.notes[1].0, "pay");
    assert_eq!(l.notes[1].1, vec!["asked about range".to_string()]);
}

#[test]
fn add_todo_logs_and_appends_the_task() {
    let mut l = lead();
    l.add_todo(t(1_000), "Send resume".to_string(), t(1_000 + 7 * DAY));
    assert_eq!(l.todo.len(), 1);
    assert_eq!(l.todo[0].action, "Send resume");
    assert_eq!(l.todo[0].deadline, t(1_000 + 7 * DAY));
    assert_eq!(l.status_updates.last().unwrap(), &(t(1_000), "TODO: Send resume".to_string()));
}

#[test]
fn complete_todo_empties_the_list_and_logs_done() {
    let mut l = lead();
    l.add_todo(t(1_000), "Send resume".to_string(), t(1_000 + 7 * DAY));
    l.complete_todo(t(2_000), 0).unwrap();
    assert!(l.todo.is_empty());
    assert_eq!(l.status_updates.last().unwrap(), &(t(2_000), "DONE: Send resume".to_string()));
}

#[test]
fn complete_todo_keeps_relative_order_of_the_rest() {
    let mut l = lead();
    l.add_todo(t(1), "a".to_string(), t(10));
    l.add_todo(t(2), "b".to_string(), t(20));
    l.add_todo(t(3), "c".to_string(), t(30));
    l.complete_todo(t(4), 1).unwrap();
    let actions: Vec<&str> = l.todo.iter().map(|e| e.action.as_str()).collect();
    assert_eq!(actions, vec!["a", "c"]);
}

#[test]
fn complete_todo_past_the_end_is_not_found() {
    let mut l = lead();
    assert_eq!(l.complete_todo(t(1), 0).unwrap_err(), Error::NotFound);
    l.add_todo(t(1), "a".to_string(), t(10));
    assert_eq!(l.complete_todo(t(2), 1).unwrap_err(), Error::NotFound);
    assert_eq!(l.todo.len(), 1);
}

#[test]
fn add_wait_logs_and_appends_the_task() {
    let mut l = lead();
    l.add_wait(t(1_000), "Offer letter".to_string(), Some(t(5_000)));
    l.add_wait(t(1_500), "Feedback".to_string(), None);
    assert_eq!(l.wait.len(), 2);
    assert_eq!(l.wait[0].action, "Offer letter");
    assert_eq!(l.wait[0].expected, Some(t(5_000)));
    assert_eq!(l.wait[1].expected, None);
    assert!(l
        .status_updates
        .iter()
        .any(|e| e == &(t(1_000), "WAITING: Offer letter".to_string())));
}

#[test]
fn complete_wait_shrinks_by_one_and_logs_received() {
    let mut l = lead();
    l.add_wait(t(1_000), "Offer letter".to_string(), Some(t(5_000)));
    l.complete_wait(t(2_000), 0).unwrap();
    assert!(l.wait.is_empty());
    assert_eq!(l.status_updates.last().unwrap(), &(t(2_000), "RECEIVED: Offer letter".to_string()));
}

#[test]
fn complete_wait_past_the_end_is_not_found() {
    let mut l = lead();
    assert_eq!(l.complete_wait(t(1), 0).unwrap_err(), Error::NotFound);
    l.add_wait(t(1), "a".to_string(), None);
    assert_eq!(l.complete_wait(t(2), 9).unwrap_err(), Error::NotFound);
    assert_eq!(l.wait.len(), 1);
}

#[test]
fn cloning_copies_every_field() {
    let mut l = lead();
    l.add_note("recruiter".to_string(), "emailed".to_string());
    l.add_status(t(1_000), "screened".to_string());
    l.add_todo(t(2_000), "Send resume".to_string(), t(9_000));
    l.add_wait(t(3_000), "Feedback".to_string(), None);
    let copy = l.clone();
    assert_eq!(copy.position, l.position);
    assert_eq!(copy.source, l.source);
    assert_eq!(copy.notes, l.notes);
    assert_eq!(copy.red_flags, l.red_flags);
    assert_eq!(copy.status_updates, l.status_updates);
    assert_eq!(copy.todo.len(), l.todo.len());
    assert_eq!(copy.todo[0].action, l.todo[0].action);
    assert_eq!(copy.wait.len(), l.wait.len());
    assert_eq!(copy.wait[0].action, l.wait[0].action);
}
