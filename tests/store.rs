use note_store::{
    add_note, add_note_at, list_notes, loaded_or_empty, modify_note, modify_note_at, next_id,
    remove_note, Note,
};

fn note(id: u32, title: &str, body: &str, time: &str) -> Note {
    Note::new(id, title.to_string(), body.to_string(), time.to_string())
}

fn two_notes() -> Vec<Note> {
    vec![
        note(1, "first", "the first body", "2024-01-01 10:00:00"),
        note(2, "second", "the second body", "2024-01-02 11:00:00"),
    ]
}

fn ids(notes: &[Note]) -> Vec<u32> {
    notes.iter().map(|n| n.id).collect()
}

#[test]
fn test_add_delete_notes() {
    let mut notes = two_notes();
    let _ = add_note(
        &mut notes,
        "test note".to_string(),
        "this is a test note to be added".to_string(),
    );
    assert_eq!(notes.len(), 3);

    let _ = remove_note(&mut notes, 3);
    assert_eq!(notes.len(), 2);
}

#[test]
fn test_modify_notes() {
    let mut notes = two_notes();
    let first_note_title = notes[0].title.clone();
    let updated_title = notes[1].title.clone();
    let updated_body = notes[1].body.clone();

    let _ = modify_note(&mut notes, 1, Some(updated_title), Some(updated_body));
    assert_ne!(first_note_title, notes[0].title);
}

#[test]
fn empty_load_gives_empty_collection() {
    assert!(loaded_or_empty(None).is_empty());
    let kept = loaded_or_empty(Some(two_notes()));
    assert_eq!(ids(&kept), vec![1, 2]);
}

#[test]
fn adds_assign_ids_in_order() {
    let mut notes = Vec::new();
    for expected in 1..=5u32 {
        let got = add_note_at(&mut notes, "t".to_string(), "b".to_string(), "now".to_string());
        assert_eq!(got, Some(expected));
    }
    assert_eq!(ids(&notes), vec![1, 2, 3, 4, 5]);
}

#[test]
fn added_note_is_last() {
    let mut notes = two_notes();
    let id = add_note(&mut notes, "T".to_string(), "B".to_string());
    assert_eq!(id, Some(3));
    let last = notes.last().unwrap();
    assert_eq!(last.id, 3);
    assert_eq!(last.title, "T");
    assert_eq!(last.body, "B");
    assert_eq!(notes[0].title, "first");
    assert_eq!(notes[1].title, "second");
}

#[test]
fn next_id_after_removal_does_not_reuse() {
    let mut notes = two_notes();
    assert!(remove_note(&mut notes, 2));
    assert_eq!(next_id(&notes), Some(2));
    let mut notes = two_notes();
    assert!(remove_note(&mut notes, 1));
    assert_eq!(next_id(&notes), Some(3));
}

#[test]
fn next_id_takes_the_largest_id() {
    let notes = vec![note(7, "a", "b", "c"), note(3, "d", "e", "f")];
    assert_eq!(next_id(&notes), Some(8));
    assert_eq!(next_id(&Vec::new()), Some(1));
}

#[test]
fn add_refused_when_ids_are_exhausted() {
    let mut notes = vec![note(u32::MAX, "a", "b", "c")];
    assert_eq!(next_id(&notes), None);
    let got = add_note_at(&mut notes, "x".to_string(), "y".to_string(), "z".to_string());
    assert_eq!(got, None);
    assert_eq!(notes.len(), 1);
    assert_eq!(notes[0].title, "a");
}

#[test]
fn remove_absent_id_changes_nothing() {
    let mut notes = two_notes();
    assert!(!remove_note(&mut notes, 9));
    assert_eq!(notes, two_notes());
}

#[test]
fn remove_present_id_drops_one_note() {
    let mut notes = two_notes();
    notes.push(note(3, "third", "the third body", "2024-01-03 12:00:00"));
    assert!(remove_note(&mut notes, 2));
    assert_eq!(notes.len(), 2);
    assert_eq!(ids(&notes), vec![1, 3]);
    assert_eq!(notes[1].title, "third");
}

#[test]
fn modify_title_only() {
    let mut notes = two_notes();
    let found = modify_note_at(&mut notes, 2, Some("X".to_string()), None, "later".to_string());
    assert!(found);
    assert_eq!(notes[1].id, 2);
    assert_eq!(notes[1].title, "X");
    assert_eq!(notes[1].body, "the second body");
    assert_eq!(notes[1].time, "later");
    assert_eq!(notes[0], two_notes()[0]);
}

#[test]
fn modify_body_only() {
    let mut notes = two_notes();
    assert!(modify_note_at(&mut notes, 1, None, Some("Y".to_string()), "later".to_string()));
    assert_eq!(notes[0].title, "first");
    assert_eq!(notes[0].body, "Y");
    assert_eq!(notes[0].time, "later");
}

#[test]
fn modify_nothing_still_refreshes_time() {
    let mut notes = two_notes();
    assert!(modify_note_at(&mut notes, 1, None, None, "later".to_string()));
    assert_eq!(notes[0].title, "first");
    assert_eq!(notes[0].body, "the first body");
    assert_eq!(notes[0].time, "later");
}

#[test]
fn modify_absent_id_changes_nothing() {
    let mut notes = two_notes();
    assert!(!modify_note(&mut notes, 5, None, None));
    assert_eq!(notes, two_notes());
}

#[test]
fn modify_touches_first_match_only() {
    let mut notes = vec![note(4, "a", "b", "t0"), note(4, "c", "d", "t1")];
    assert!(modify_note_at(&mut notes, 4, Some("X".to_string()), None, "t2".to_string()));
    assert_eq!(notes[0].title, "X");
    assert_eq!(notes[1].title, "c");
    assert_eq!(notes[1].time, "t1");
}

#[test]
fn list_empty_collection() {
    assert_eq!(list_notes(&Vec::new()), "No notes found!\n");
}

#[test]
fn list_shows_every_note_in_order() {
    let notes = vec![
        note(1, "first", "one", "2024-01-01 10:00:00"),
        note(4097, "second", "two", "2024-01-02 11:00:00"),
        note(0, "zero", "", "t"),
    ];
    assert_eq!(
        list_notes(&notes),
        "ID: 1, Title: first, Body: one, Recent Update: 2024-01-01 10:00:00\n\
         ID: 4097, Title: second, Body: two, Recent Update: 2024-01-02 11:00:00\n\
         ID: 0, Title: zero, Body: , Recent Update: t\n"
    );
}

#[test]
fn list_largest_id() {
    let notes = vec![note(u32::MAX, "t", "b", "u")];
    assert_eq!(
        list_notes(&notes),
        "ID: 4294967295, Title: t, Body: b, Recent Update: u\n"
    );
}

#[test]
fn buy_milk_then_call_bob() {
    let mut notes = loaded_or_empty(None);
    assert_eq!(add_note(&mut notes, "Buy milk".to_string(), "2% milk".to_string()), Some(1));
    assert_eq!(add_note(&mut notes, "Call Bob".to_string(), "re: project".to_string()), Some(2));
    assert!(remove_note(&mut notes, 1));
    assert_eq!(notes.len(), 1);
    assert_eq!(notes[0].id, 2);
    assert_eq!(notes[0].title, "Call Bob");
    let shown = list_notes(&notes);
    assert!(shown.starts_with("ID: 2, Title: Call Bob, Body: re: project, Recent Update: "));
    assert_eq!(shown.lines().count(), 1);
}

#[test]
fn clock_stamp_is_set_on_add() {
    let mut notes = Vec::new();
    add_note(&mut notes, "t".to_string(), "b".to_string());
    assert!(!notes[0].time.is_empty());
}
