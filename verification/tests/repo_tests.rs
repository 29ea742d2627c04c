use todo::cli::Weight;
use todo::error::Error;
use todo::repo::{Item, RawRow, Repo};

const DAY: i64 = 86400;
const NOW: i64 = 1_700_000_000;

fn sample_repo() -> Repo {
    Repo::new()
}

#[test]
fn add_then_list_contains_it_once_with_fields() {
    let mut repo = sample_repo();
    repo.add(
        "alpha".to_string(),
        Some("first task".to_string()),
        Some(Weight::High),
        Some(3),
        Some(10),
        NOW,
    )
    .unwrap();
    let items = repo.list(None, false, false, false).unwrap();
    assert_eq!(items.len(), 1);
    let it = &items[0];
    assert_eq!(it.name, "alpha");
    assert_eq!(it.description.as_deref(), Some("first task"));
    assert_eq!(it.weight, Weight::High);
    assert_eq!(it.start_date, Some(NOW + 3 * DAY));
    assert_eq!(it.deadline, Some(NOW + 10 * DAY));
    assert!(!it.completed);
    assert_eq!(it.created_at, NOW);
    assert_eq!(it.completed_at, None);
    assert_eq!(it.id, 1);
}

#[test]
fn add_defaults_weight_to_medium_and_dates_to_none() {
    let mut repo = sample_repo();
    repo.add("bare".to_string(), None, None, None, None, NOW).unwrap();
    let items = repo.list(None, false, false, false).unwrap();
    assert_eq!(items[0].weight, Weight::Medium);
    assert_eq!(items[0].start_date, None);
    assert_eq!(items[0].deadline, None);
}

#[test]
fn duplicate_add_fails_and_keeps_first() {
    let mut repo = sample_repo();
    repo.add("alpha".to_string(), Some("one".to_string()), None, None, None, NOW).unwrap();
    let r = repo.add("alpha".to_string(), Some("two".to_string()), None, None, None, NOW + 5);
    assert!(matches!(r, Err(Error::Database(_))));
    let items = repo.list(None, false, false, false).unwrap();
    assert_eq!(items.len(), 1);
    assert_eq!(items[0].description.as_deref(), Some("one"));
}

#[test]
fn add_with_huge_day_count_is_a_date_error() {
    let mut repo = sample_repo();
    let r = repo.add("far".to_string(), None, None, None, Some(u32::MAX), NOW);
    assert!(matches!(r, Err(Error::DateParse(_))));
    assert!(repo.list(None, false, false, false).unwrap().is_empty());
}

#[test]
fn remove_unknown_fails_and_store_unchanged() {
    let mut repo = sample_repo();
    repo.add("alpha".to_string(), None, None, None, None, NOW).unwrap();
    let r = repo.remove("beta");
    match r {
        Err(Error::ItemNotFound(n)) => assert_eq!(n, "beta"),
        other => panic!("expected ItemNotFound, got {:?}", other),
    }
    assert_eq!(repo.list(None, false, false, false).unwrap().len(), 1);
}

#[test]
fn remove_existing_deletes_exactly_that_task() {
    let mut repo = sample_repo();
    repo.add("alpha".to_string(), None, None, None, None, NOW).unwrap();
    repo.add("beta".to_string(), None, None, None, None, NOW + 1).unwrap();
    repo.remove("alpha").unwrap();
    let items = repo.list(None, false, false, false).unwrap();
    assert_eq!(items.len(), 1);
    assert_eq!(items[0].name, "beta");
}

#[test]
fn edit_with_no_fields_is_a_noop() {
    let mut repo = sample_repo();
    repo.add(
        "alpha".to_string(),
        Some("desc".to_string()),
        Some(Weight::Low),
        Some(1),
        Some(2),
        NOW,
    )
    .unwrap();
    let r = repo.edit("alpha".to_string(), None, None, None, None, None, NOW + 999);
    assert!(r.is_ok());
    let items = repo.list(None, false, false, false).unwrap();
    let it = &items[0];
    assert_eq!(it.name, "alpha");
    assert_eq!(it.description.as_deref(), Some("desc"));
    assert_eq!(it.weight, Weight::Low);
    assert_eq!(it.start_date, Some(NOW + DAY));
    assert_eq!(it.deadline, Some(NOW + 2 * DAY));
    assert_eq!(it.created_at, NOW);
}

#[test]
fn edit_with_no_fields_succeeds_even_for_unknown_name() {
    let mut repo = sample_repo();
    let r = repo.edit("ghost".to_string(), None, None, None, None, None, NOW);
    assert!(r.is_ok());
}

#[test]
fn edit_description_only_leaves_the_rest() {
    let mut repo = sample_repo();
    repo.add(
        "alpha".to_string(),
        Some("old".to_string()),
        Some(Weight::High),
        Some(1),
        Some(2),
        NOW,
    )
    .unwrap();
    repo.edit("alpha".to_string(), None, Some("new".to_string()), None, None, None, NOW + 50)
        .unwrap();
    let it = &repo.list(None, false, false, false).unwrap()[0];
    assert_eq!(it.description.as_deref(), Some("new"));
    assert_eq!(it.name, "alpha");
    assert_eq!(it.weight, Weight::High);
    assert_eq!(it.start_date, Some(NOW + DAY));
    assert_eq!(it.deadline, Some(NOW + 2 * DAY));
    assert_eq!(it.created_at, NOW);
    assert!(!it.completed);
}

#[test]
fn edit_unknown_name_fails() {
    let mut repo = sample_repo();
    let r = repo.edit("ghost".to_string(), None, Some("d".to_string()), None, None, None, NOW);
    match r {
        Err(Error::ItemNotFound(n)) => assert_eq!(n, "ghost"),
        other => panic!("expected ItemNotFound, got {:?}", other),
    }
}

#[test]
fn edit_rename_to_taken_name_fails() {
    let mut repo = sample_repo();
    repo.add("alpha".to_string(), None, None, None, None, NOW).unwrap();
    repo.add("beta".to_string(), None, None, None, None, NOW).unwrap();
    let r = repo.edit("alpha".to_string(), Some("beta".to_string()), None, None, None, None, NOW);
    assert!(matches!(r, Err(Error::Database(_))));
    let items = repo.list(None, false, false, false).unwrap();
    assert_eq!(items.len(), 2);
}

#[test]
fn edit_rename_to_own_name_succeeds() {
    let mut repo = sample_repo();
    repo.add("alpha".to_string(), None, None, None, None, NOW).unwrap();
    repo.edit("alpha".to_string(), Some("alpha".to_string()), None, None, None, None, NOW)
        .unwrap();
    assert_eq!(repo.list(None, false, false, false).unwrap()[0].name, "alpha");
}

#[test]
fn edit_recomputes_dates_from_now() {
    let mut repo = sample_repo();
    repo.add("alpha".to_string(), None, None, Some(1), None, NOW).unwrap();
    let later = NOW + 100;
    repo.edit("alpha".to_string(), None, None, None, Some(4), None, later).unwrap();
    let it = &repo.list(None, false, false, false).unwrap()[0];
    assert_eq!(it.start_date, Some(later + 4 * DAY));
}

#[test]
fn complete_stamps_and_cannot_repeat() {
    let mut repo = sample_repo();
    repo.add("alpha".to_string(), None, None, None, None, NOW).unwrap();
    repo.complete("alpha", NOW + 60).unwrap();
    let it = &repo.list(None, false, false, false).unwrap()[0];
    assert!(it.completed);
    assert_eq!(it.completed_at, Some(NOW + 60));
    assert!(it.completed_at.unwrap() >= it.created_at);
    let again = repo.complete("alpha", NOW + 120);
    match again {
        Err(Error::ItemNotFound(n)) => assert_eq!(n, "alpha"),
        other => panic!("expected ItemNotFound, got {:?}", other),
    }
    let it = &repo.list(None, false, false, false).unwrap()[0];
    assert_eq!(it.completed_at, Some(NOW + 60));
}

#[test]
fn complete_unknown_name_fails() {
    let mut repo = sample_repo();
    let r = repo.complete("ghost", NOW);
    assert!(matches!(r, Err(Error::ItemNotFound(_))));
}

#[test]
fn list_sorted_by_deadline_puts_missing_last() {
    let mut repo = sample_repo();
    repo.add("a".to_string(), None, None, None, Some(1), NOW).unwrap();
    repo.add("b".to_string(), None, None, None, None, NOW + 1).unwrap();
    repo.add("c".to_string(), None, None, None, Some(5), NOW + 2).unwrap();
    let items = repo.list(None, false, true, false).unwrap();
    let names: Vec<&str> = items.iter().map(|t| t.name.as_str()).collect();
    assert_eq!(names, vec!["a", "c", "b"]);
}

#[test]
fn list_sorted_by_weight_is_high_medium_low() {
    let mut repo = sample_repo();
    repo.add("x".to_string(), None, Some(Weight::Low), None, None, NOW).unwrap();
    repo.add("y".to_string(), None, Some(Weight::High), None, None, NOW + 1).unwrap();
    repo.add("z".to_string(), None, Some(Weight::Medium), None, None, NOW + 2).unwrap();
    let items = repo.list(None, false, false, true).unwrap();
    let names: Vec<&str> = items.iter().map(|t| t.name.as_str()).collect();
    assert_eq!(names, vec!["y", "z", "x"]);
}

#[test]
fn list_deadline_takes_precedence_over_weight() {
    let mut repo = sample_repo();
    repo.add("late".to_string(), None, Some(Weight::High), None, Some(9), NOW).unwrap();
    repo.add("soon".to_string(), None, Some(Weight::Low), None, Some(1), NOW + 1).unwrap();
    let items = repo.list(None, false, true, true).unwrap();
    assert_eq!(items[0].name, "soon");
    assert_eq!(items[1].name, "late");
}

#[test]
fn list_default_order_is_newest_first() {
    let mut repo = sample_repo();
    repo.add("old".to_string(), None, None, None, None, NOW).unwrap();
    repo.add("mid".to_string(), None, None, None, None, NOW + 10).unwrap();
    repo.add("new".to_string(), None, None, None, None, NOW + 20).unwrap();
    let items = repo.list(None, false, false, false).unwrap();
    let names: Vec<&str> = items.iter().map(|t| t.name.as_str()).collect();
    assert_eq!(names, vec!["new", "mid", "old"]);
}

#[test]
fn list_weight_filter_keeps_only_that_weight_in_order() {
    let mut repo = sample_repo();
    repo.add("h1".to_string(), None, Some(Weight::High), None, Some(7), NOW).unwrap();
    repo.add("l1".to_string(), None, Some(Weight::Low), None, Some(1), NOW + 1).unwrap();
    repo.add("h2".to_string(), None, Some(Weight::High), None, Some(3), NOW + 2).unwrap();
    let all = repo.list(None, false, true, false).unwrap();
    let high = repo.list(Some(Weight::High), false, true, false).unwrap();
    let expect: Vec<&str> = all
        .iter()
        .filter(|t| t.weight == Weight::High)
        .map(|t| t.name.as_str())
        .collect();
    let got: Vec<&str> = high.iter().map(|t| t.name.as_str()).collect();
    assert_eq!(got, expect);
    assert_eq!(got, vec!["h2", "h1"]);
}

#[test]
fn list_completed_only_filters_pending_out() {
    let mut repo = sample_repo();
    repo.add("done".to_string(), None, None, None, None, NOW).unwrap();
    repo.add("open".to_string(), None, None, None, None, NOW + 1).unwrap();
    repo.complete("done", NOW + 2).unwrap();
    let items = repo.list(None, true, false, false).unwrap();
    assert_eq!(items.len(), 1);
    assert_eq!(items[0].name, "done");
    let all = repo.list(None, false, false, false).unwrap();
    assert_eq!(all.len(), 2);
}

#[test]
fn load_accepts_a_clean_set_and_sets_next_id() {
    let mut repo = sample_repo();
    repo.add("a".to_string(), None, None, None, None, NOW).unwrap();
    repo.add("b".to_string(), None, None, None, None, NOW).unwrap();
    let items = repo.list(None, false, false, false).unwrap();
    let loaded = Repo::load(items).unwrap();
    assert_eq!(loaded.next_id, 3);
    assert_eq!(loaded.tasks.len(), 2);
}

#[test]
fn load_rejects_duplicate_names() {
    let mk = |id: i64| Item {
        id,
        name: "same".to_string(),
        description: None,
        weight: Weight::Medium,
        start_date: None,
        deadline: None,
        completed: false,
        created_at: NOW,
        completed_at: None,
    };
    let r = Repo::load(vec![mk(1), mk(2)]);
    assert!(matches!(r, Err(Error::Database(_))));
}

#[test]
fn load_rejects_mismatched_completion_stamp() {
    let bad = Item {
        id: 1,
        name: "odd".to_string(),
        description: None,
        weight: Weight::Medium,
        start_date: None,
        deadline: None,
        completed: true,
        created_at: NOW,
        completed_at: None,
    };
    let r = Repo::load(vec![bad]);
    assert!(matches!(r, Err(Error::Database(_))));
}

#[test]
fn row_round_trip_preserves_every_field() {
    let it = Item {
        id: 7,
        name: "round".to_string(),
        description: Some("trip".to_string()),
        weight: Weight::High,
        start_date: Some(NOW + DAY),
        deadline: Some(NOW + 2 * DAY),
        completed: true,
        created_at: NOW,
        completed_at: Some(NOW + 3),
    };
    let row = it.to_row();
    let back = Item::from_row(row).unwrap();
    assert_eq!(back.id, 7);
    assert_eq!(back.name, "round");
    assert_eq!(back.description.as_deref(), Some("trip"));
    assert_eq!(back.weight, Weight::High);
    assert_eq!(back.start_date, Some(NOW + DAY));
    assert_eq!(back.deadline, Some(NOW + 2 * DAY));
    assert!(back.completed);
    assert_eq!(back.created_at, NOW);
    assert_eq!(back.completed_at, Some(NOW + 3));
}

#[test]
fn to_row_renders_the_epoch_in_the_fixed_format() {
    let it = Item {
        id: 1,
        name: "epoch".to_string(),
        description: None,
        weight: Weight::Low,
        start_date: None,
        deadline: None,
        completed: false,
        created_at: 0,
        completed_at: None,
    };
    let row = it.to_row();
    assert_eq!(row.created_at, "1970-01-01T00:00:00+00:00");
    assert_eq!(row.weight, "low");
    assert_eq!(row.start_date, None);
}

#[test]
fn from_row_rejects_unknown_weight_token() {
    let row = RawRow {
        id: 1,
        name: "t".to_string(),
        description: None,
        weight: "urgent".to_string(),
        start_date: None,
        deadline: None,
        completed: false,
        created_at: "1970-01-01T00:00:00+00:00".to_string(),
        completed_at: None,
    };
    match Item::from_row(row) {
        Err(Error::WeightParse(t)) => assert_eq!(t, "urgent"),
        other => panic!("expected WeightParse, got {:?}", other),
    }
}

#[test]
fn from_row_rejects_a_malformed_date() {
    let row = RawRow {
        id: 1,
        name: "t".to_string(),
        description: None,
        weight: "medium".to_string(),
        start_date: Some("yesterday".to_string()),
        deadline: None,
        completed: false,
        created_at: "1970-01-01T00:00:00+00:00".to_string(),
        completed_at: None,
    };
    match Item::from_row(row) {
        Err(Error::DateParse(s)) => assert_eq!(s, "yesterday"),
        other => panic!("expected DateParse, got {:?}", other),
    }
}

#[test]
fn from_row_rejects_a_stamp_that_disagrees_with_the_flag() {
    let row = RawRow {
        id: 1,
        name: "t".to_string(),
        description: None,
        weight: "medium".to_string(),
        start_date: None,
        deadline: None,
        completed: true,
        created_at: "1970-01-01T00:00:00+00:00".to_string(),
        completed_at: None,
    };
    assert!(matches!(Item::from_row(row), Err(Error::Database(_))));
}

#[test]
fn format_date_reads_not_set_when_absent() {
    assert_eq!(Item::format_date(None), "Not set");
    assert_ne!(Item::format_date(Some(NOW)), "Not set");
}
