use dashboard::app::{
    create_app, delete_app, get_user_all_app, sort_app, update_app, AppTable, CreateAppData, SortAppData,
    UpdateAppData,
};
use dashboard::errors::ErrorKind;

fn data(name: &str) -> CreateAppData {
    CreateAppData {
        url: format!("https://example.com/{}", name),
        name: name.to_string(),
        description: None,
        icon: None,
    }
}

fn index_of(t: &AppTable, id: i64) -> i32 {
    for i in 0..t.len() {
        if t.get(i).id == id {
            return t.get(i).index;
        }
    }
    panic!("no app {}", id);
}

fn order(ids: &[i64]) -> Vec<SortAppData> {
    ids.iter().map(|&id| SortAppData { id }).collect()
}

fn owner_indices(t: &AppTable, owner: i64) -> Vec<i32> {
    let mut v: Vec<i32> =
        get_user_all_app(t, owner).iter().map(|a| a.index).collect();
    v.sort();
    v
}

#[test]
fn create_appends_at_the_end() {
    let mut t = AppTable::new();
    let a = create_app(&mut t, 1, &data("a"), 10).unwrap();
    let b = create_app(&mut t, 1, &data("b"), 11).unwrap();
    let other = create_app(&mut t, 2, &data("c"), 12).unwrap();
    assert_eq!((a.index, b.index, other.index), (0, 1, 0));
    assert_eq!((a.id, b.id, other.id), (1, 2, 3));
    assert_eq!(a.owner_id, 1);
    assert_eq!(a.created_at, 10);
    assert_eq!(a.deleted_at, None);
}

#[test]
fn create_rejects_invalid_data() {
    let mut t = AppTable::new();
    let mut d = data("a");
    d.url = "not a url".to_string();
    assert_eq!(create_app(&mut t, 1, &d, 0).unwrap_err().kind, ErrorKind::ValidationFailed);
    let mut d = data("a");
    d.name = "x".repeat(31);
    assert_eq!(create_app(&mut t, 1, &d, 0).unwrap_err().kind, ErrorKind::ValidationFailed);
    let mut d = data("a");
    d.description = Some(String::new());
    assert_eq!(create_app(&mut t, 1, &d, 0).unwrap_err().kind, ErrorKind::ValidationFailed);
    assert_eq!(t.len(), 0);
}

#[test]
fn resequence_reorders_all_apps() {
    let mut t = AppTable::new();
    let a = create_app(&mut t, 1, &data("a"), 0).unwrap().id;
    let b = create_app(&mut t, 1, &data("b"), 0).unwrap().id;
    let c = create_app(&mut t, 1, &data("c"), 0).unwrap().id;
    sort_app(&mut t, 1, &order(&[c, a, b])).unwrap();
    assert_eq!(index_of(&t, c), 0);
    assert_eq!(index_of(&t, a), 1);
    assert_eq!(index_of(&t, b), 2);
}

#[test]
fn resequence_with_foreign_app_changes_nothing() {
    let mut t = AppTable::new();
    let a = create_app(&mut t, 1, &data("a"), 0).unwrap().id;
    let b = create_app(&mut t, 1, &data("b"), 0).unwrap().id;
    let c = create_app(&mut t, 1, &data("c"), 0).unwrap().id;
    let x = create_app(&mut t, 2, &data("x"), 0).unwrap().id;
    let e = sort_app(&mut t, 1, &order(&[c, a, x])).unwrap_err();
    assert_eq!(e.kind, ErrorKind::NotFound);
    assert_eq!(e.status_code(), 404);
    assert_eq!((index_of(&t, a), index_of(&t, b), index_of(&t, c)), (0, 1, 2));
    assert_eq!(index_of(&t, x), 0);
}

#[test]
fn resequence_with_unknown_id_is_not_found() {
    let mut t = AppTable::new();
    let a = create_app(&mut t, 1, &data("a"), 0).unwrap().id;
    assert_eq!(sort_app(&mut t, 1, &order(&[a, 99])).unwrap_err().kind, ErrorKind::NotFound);
}

#[test]
fn resequence_with_repeated_id_fails() {
    let mut t = AppTable::new();
    let a = create_app(&mut t, 1, &data("a"), 0).unwrap().id;
    let b = create_app(&mut t, 1, &data("b"), 0).unwrap().id;
    let e = sort_app(&mut t, 1, &order(&[b, b])).unwrap_err();
    assert_eq!(e.kind, ErrorKind::ValidationFailed);
    assert_eq!((index_of(&t, a), index_of(&t, b)), (0, 1));
}

#[test]
fn resequence_with_missing_id_fails() {
    let mut t = AppTable::new();
    let a = create_app(&mut t, 1, &data("a"), 0).unwrap().id;
    let b = create_app(&mut t, 1, &data("b"), 0).unwrap().id;
    let e = sort_app(&mut t, 1, &order(&[b])).unwrap_err();
    assert_eq!(e.kind, ErrorKind::ValidationFailed);
    assert_eq!((index_of(&t, a), index_of(&t, b)), (0, 1));
}

#[test]
fn resequence_of_nothing_is_fine_when_owner_has_no_apps() {
    let mut t = AppTable::new();
    create_app(&mut t, 2, &data("a"), 0).unwrap();
    assert!(sort_app(&mut t, 1, &order(&[])).is_ok());
}

#[test]
fn indices_stay_contiguous_over_creates_and_resequences() {
    let mut t = AppTable::new();
    let mut ids = Vec::new();
    for i in 0..5 {
        ids.push(create_app(&mut t, 1, &data(&format!("app{}", i)), 0).unwrap().id);
        create_app(&mut t, 2, &data(&format!("other{}", i)), 0).unwrap();
        assert_eq!(owner_indices(&t, 1), (0..=i as i32).collect::<Vec<i32>>());
    }
    ids.reverse();
    sort_app(&mut t, 1, &order(&ids)).unwrap();
    assert_eq!(owner_indices(&t, 1), vec![0, 1, 2, 3, 4]);
    assert_eq!(index_of(&t, ids[0]), 0);
    ids.push(create_app(&mut t, 1, &data("late"), 0).unwrap().id);
    assert_eq!(owner_indices(&t, 1), vec![0, 1, 2, 3, 4, 5]);
    ids.rotate_left(2);
    sort_app(&mut t, 1, &order(&ids)).unwrap();
    assert_eq!(owner_indices(&t, 1), vec![0, 1, 2, 3, 4, 5]);
    assert_eq!(owner_indices(&t, 2), vec![0, 1, 2, 3, 4]);
}

#[test]
fn update_is_scoped_to_owner() {
    let mut t = AppTable::new();
    let a = create_app(&mut t, 1, &data("a"), 0).unwrap().id;
    let upd = UpdateAppData {
        id: a,
        url: "https://example.org".to_string(),
        name: "renamed".to_string(),
        description: Some("desc".to_string()),
        icon: None,
    };
    assert_eq!(update_app(&mut t, 2, &upd).unwrap_err().kind, ErrorKind::NotFound);
    let got = update_app(&mut t, 1, &upd).unwrap();
    assert_eq!(got.name, "renamed");
    assert_eq!(got.url, "https://example.org");
    assert_eq!(got.description.as_deref(), Some("desc"));
    assert_eq!(got.index, 0);
    assert_eq!(t.get(0).name, "renamed");
}

#[test]
fn delete_is_scoped_and_soft() {
    let mut t = AppTable::new();
    let a = create_app(&mut t, 1, &data("a"), 0).unwrap().id;
    let b = create_app(&mut t, 1, &data("b"), 0).unwrap().id;
    assert_eq!(delete_app(&mut t, 2, a, 5).unwrap_err().kind, ErrorKind::NotFound);
    delete_app(&mut t, 1, a, 5).unwrap();
    assert_eq!(t.get(0).deleted_at, Some(5));
    assert_eq!(t.len(), 2);
    assert_eq!(delete_app(&mut t, 1, a, 6).unwrap_err().kind, ErrorKind::NotFound);
    let live = get_user_all_app(&t, 1);
    assert_eq!(live.len(), 1);
    assert_eq!(live[0].id, b);
    assert_eq!(live[0].index, 1);
    sort_app(&mut t, 1, &order(&[b])).unwrap();
    assert_eq!(index_of(&t, b), 0);
}

#[test]
fn listing_shows_only_own_live_apps() {
    let mut t = AppTable::new();
    create_app(&mut t, 1, &data("a"), 0).unwrap();
    create_app(&mut t, 2, &data("b"), 0).unwrap();
    create_app(&mut t, 1, &data("c"), 0).unwrap();
    let names: Vec<String> = get_user_all_app(&t, 1).into_iter().map(|a| a.name).collect();
    assert_eq!(names, vec!["a".to_string(), "c".to_string()]);
    assert!(get_user_all_app(&t, 3).is_empty());
}
