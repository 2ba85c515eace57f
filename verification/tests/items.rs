use shelf_brain::{
    ApiError, ApiItem, CreateItemRequest, ItemRecord, ItemStatus, MoveItemRequest, ShelfType,
    UpdateItemRequest, apply_update, archive_item, build_item, create_item, find_item, found_item,
    list_items, move_item, update_found, update_item,
};

fn record(id: &str, shelf: ShelfType, status: ItemStatus, updated: &str) -> ItemRecord {
    ItemRecord {
        pk: "USER#u".to_string(),
        sk: format!("ITEM#{}", id),
        entity_type: "item".to_string(),
        id: id.to_string(),
        user_id: "u".to_string(),
        title: format!("title {}", id),
        shelf_type: shelf,
        category: None,
        due_at: None,
        notes: None,
        status,
        created_at: "2024-01-01T00:00:00Z".to_string(),
        updated_at: updated.to_string(),
        last_reviewed_at: None,
    }
}

fn empty_patch() -> UpdateItemRequest {
    UpdateItemRequest {
        title: None,
        shelf_type: None,
        category: None,
        due_at: None,
        notes: None,
        status: None,
        last_reviewed_at: None,
    }
}

fn request(title: &str) -> CreateItemRequest {
    CreateItemRequest {
        title: title.to_string(),
        shelf_type: None,
        category: None,
        due_at: None,
        notes: None,
    }
}

fn is_uuid_v4(s: &str) -> bool {
    let c: Vec<char> = s.chars().collect();
    c.len() == 36
        && c.iter().enumerate().all(|(i, ch)| {
            if i == 8 || i == 13 || i == 18 || i == 23 {
                *ch == '-'
            } else {
                ch.is_ascii_digit() || ('a'..='f').contains(ch)
            }
        })
        && c[14] == '4'
        && "89ab".contains(c[19])
}

fn is_stamp(s: &str) -> bool {
    let c: Vec<char> = s.chars().collect();
    let n = c.len();
    let digits = [0, 1, 2, 3, 5, 6, 8, 9, 11, 12, 14, 15, 17, 18];
    n == 20
        && c[n - 1] == 'Z'
        && c[n - 10] == 'T'
        && c[n - 4] == ':'
        && c[n - 7] == ':'
        && c[n - 13] == '-'
        && c[n - 16] == '-'
        && digits.iter().all(|&i| c[i].is_ascii_digit())
}

#[test]
fn build_item_fills_defaults() {
    let item = build_item(
        "alice",
        request("  Call mom  "),
        "sk-1".to_string(),
        "id-1".to_string(),
        "2024-05-01T10:00:00Z".to_string(),
    )
    .unwrap();
    assert_eq!(item.pk, "USER#alice");
    assert_eq!(item.sk, "ITEM#sk-1");
    assert_eq!(item.entity_type, "item");
    assert_eq!(item.id, "id-1");
    assert_eq!(item.user_id, "alice");
    assert_eq!(item.title, "Call mom");
    assert_eq!(item.shelf_type, ShelfType::Middle);
    assert_eq!(item.status, ItemStatus::Active);
    assert_eq!(item.created_at, "2024-05-01T10:00:00Z");
    assert_eq!(item.updated_at, "2024-05-01T10:00:00Z");
    assert_eq!(item.category, None);
    assert_eq!(item.last_reviewed_at, None);
}

#[test]
fn build_item_cleans_optional_fields() {
    let payload = CreateItemRequest {
        title: "Plan trip".to_string(),
        shelf_type: Some(ShelfType::Bottom),
        category: Some(" travel ".to_string()),
        due_at: Some("   ".to_string()),
        notes: Some("\tbring maps\n".to_string()),
    };
    let item = build_item("u", payload, "s".into(), "i".into(), "t".into()).unwrap();
    assert_eq!(item.shelf_type, ShelfType::Bottom);
    assert_eq!(item.category, Some("travel".to_string()));
    assert_eq!(item.due_at, None);
    assert_eq!(item.notes, Some("bring maps".to_string()));
}

#[test]
fn blank_title_is_required() {
    for t in ["", "   ", "\n\t"] {
        assert_eq!(
            build_item("u", request(t), "s".into(), "i".into(), "t".into()),
            Err(ApiError::TitleRequired)
        );
        assert_eq!(create_item("u", request(t)), Err(ApiError::TitleRequired));
    }
}

#[test]
fn create_item_uses_fresh_ids_and_the_time() {
    let item = create_item("bob", request(" Read ")).unwrap();
    assert_eq!(item.title, "Read");
    assert!(item.sk.starts_with("ITEM#"));
    assert!(is_uuid_v4(&item.sk[5..]), "{}", item.sk);
    assert!(is_uuid_v4(&item.id), "{}", item.id);
    assert_ne!(item.id, item.sk[5..]);
    assert!(is_stamp(&item.created_at), "{}", item.created_at);
    assert_eq!(item.created_at, item.updated_at);
    let other = create_item("bob", request("Read")).unwrap();
    assert_ne!(item.id, other.id);
}

#[test]
fn apply_update_sets_present_fields() {
    let mut old = record("a", ShelfType::Top, ItemStatus::Active, "2024-01-01T00:00:00Z");
    old.category = Some("home".to_string());
    old.notes = Some("n".to_string());
    let patch = UpdateItemRequest {
        title: Some("  New title ".to_string()),
        shelf_type: Some(ShelfType::Bottom),
        category: Some(None),
        due_at: Some(Some(" 2024-06-01 ".to_string())),
        notes: None,
        status: Some(ItemStatus::Archived),
        last_reviewed_at: Some(Some("2024-02-02T00:00:00Z".to_string())),
    };
    let new = apply_update(old.clone(), patch, "2024-03-03T00:00:00Z".to_string()).unwrap();
    assert_eq!(new.title, "New title");
    assert_eq!(new.shelf_type, ShelfType::Bottom);
    assert_eq!(new.category, None);
    assert_eq!(new.due_at, Some("2024-06-01".to_string()));
    assert_eq!(new.notes, Some("n".to_string()));
    assert_eq!(new.status, ItemStatus::Archived);
    assert_eq!(new.last_reviewed_at, Some("2024-02-02T00:00:00Z".to_string()));
    assert_eq!(new.updated_at, "2024-03-03T00:00:00Z");
    assert_eq!(new.created_at, old.created_at);
    assert_eq!(new.id, old.id);
    assert_eq!(new.pk, old.pk);
    assert_eq!(new.sk, old.sk);
}

#[test]
fn empty_update_only_touches_the_time() {
    let old = record("a", ShelfType::Top, ItemStatus::Active, "2024-01-01T00:00:00Z");
    let new = apply_update(old.clone(), empty_patch(), "later".to_string()).unwrap();
    let mut expected = old;
    expected.updated_at = "later".to_string();
    assert_eq!(new, expected);
}

#[test]
fn blank_title_update_is_refused() {
    let old = record("a", ShelfType::Top, ItemStatus::Active, "t");
    let mut patch = empty_patch();
    patch.title = Some("  ".to_string());
    assert_eq!(apply_update(old.clone(), patch, "x".into()), Err(ApiError::TitleCannotBeEmpty));
    let mut patch = empty_patch();
    patch.title = Some("".to_string());
    assert_eq!(update_item(old, patch), Err(ApiError::TitleCannotBeEmpty));
}

#[test]
fn update_item_stamps_the_time() {
    let old = record("a", ShelfType::Top, ItemStatus::Active, "2000-01-01T00:00:00Z");
    let new = update_item(old, empty_patch()).unwrap();
    assert!(is_stamp(&new.updated_at), "{}", new.updated_at);
    assert_ne!(new.updated_at, "2000-01-01T00:00:00Z");
}

#[test]
fn move_changes_only_the_shelf() {
    let patch = move_item(MoveItemRequest { shelf_type: ShelfType::Top });
    let mut expected = empty_patch();
    expected.shelf_type = Some(ShelfType::Top);
    assert_eq!(patch, expected);
    let old = record("a", ShelfType::Bottom, ItemStatus::Active, "t0");
    let new = apply_update(old.clone(), patch, "t1".into()).unwrap();
    assert_eq!(new.shelf_type, ShelfType::Top);
    assert_eq!(new.title, old.title);
    assert_eq!(new.status, old.status);
}

#[test]
fn archive_changes_only_the_status() {
    let patch = archive_item();
    let mut expected = empty_patch();
    expected.status = Some(ItemStatus::Archived);
    assert_eq!(patch, expected);
    let old = record("a", ShelfType::Bottom, ItemStatus::Active, "t0");
    let new = apply_update(old.clone(), patch, "t1".into()).unwrap();
    assert_eq!(new.status, ItemStatus::Archived);
    assert_eq!(new.shelf_type, ShelfType::Bottom);
}

#[test]
fn find_item_finds_the_first_with_the_id() {
    let a = record("a", ShelfType::Top, ItemStatus::Active, "1");
    let b = record("b", ShelfType::Top, ItemStatus::Active, "2");
    let mut b2 = record("b", ShelfType::Bottom, ItemStatus::Active, "3");
    b2.title = "second b".to_string();
    let records = vec![a.clone(), b.clone(), b2];
    assert_eq!(find_item(records.clone(), "b"), Some(b));
    assert_eq!(find_item(records.clone(), "a"), Some(a));
    assert_eq!(find_item(records.clone(), "c"), None);
    assert_eq!(find_item(vec![], "a"), None);
}

#[test]
fn stored_item_is_found_again() {
    let created = create_item("u", request("x")).unwrap();
    let records = vec![record("a", ShelfType::Top, ItemStatus::Active, "1"), created.clone()];
    assert_eq!(find_item(records, &created.id), Some(created));
}

#[test]
fn api_item_from_record_keeps_fields() {
    let mut r = record("a", ShelfType::Middle, ItemStatus::Archived, "u");
    r.notes = Some("n".into());
    let api = ApiItem::from(r.clone());
    assert_eq!(api.id, r.id);
    assert_eq!(api.title, r.title);
    assert_eq!(api.shelf_type, r.shelf_type);
    assert_eq!(api.notes, r.notes);
    assert_eq!(api.status, r.status);
    assert_eq!(api.created_at, r.created_at);
    assert_eq!(api.updated_at, r.updated_at);
    assert_eq!(api.clone(), api);
}

fn ids(items: &[ApiItem]) -> Vec<String> {
    items.iter().map(|i| i.id.clone()).collect()
}

#[test]
fn list_items_defaults_to_active_and_sorts_by_due_date() {
    let mut a = record("a", ShelfType::Top, ItemStatus::Active, "2024-01-01T00:00:00Z");
    a.due_at = Some("2024-06-01".into());
    let mut b = record("b", ShelfType::Middle, ItemStatus::Active, "2024-01-02T00:00:00Z");
    b.due_at = Some("2024-05-01".into());
    let c = record("c", ShelfType::Top, ItemStatus::Active, "2024-01-03T00:00:00Z");
    let d = record("d", ShelfType::Top, ItemStatus::Active, "2024-01-04T00:00:00Z");
    let e = record("e", ShelfType::Top, ItemStatus::Archived, "2024-01-05T00:00:00Z");
    let records = vec![a, b, c, d, e];
    let listed = list_items(records.clone(), None, None, None);
    assert_eq!(ids(&listed), vec!["d", "c", "b", "a"]);
    let top = list_items(records.clone(), Some("top"), None, None);
    assert_eq!(ids(&top), vec!["d", "c", "a"]);
    let archived = list_items(records.clone(), None, Some("archived"), None);
    assert_eq!(ids(&archived), vec!["e"]);
    let unknown_status = list_items(records.clone(), None, Some("gone"), None);
    assert_eq!(ids(&unknown_status), vec!["d", "c", "b", "a"]);
    let unknown_shelf = list_items(records, Some("attic"), None, None);
    assert_eq!(ids(&unknown_shelf), vec!["d", "c", "b", "a"]);
}

#[test]
fn list_items_filters_by_category_and_keeps_ties_in_order() {
    let mut a = record("a", ShelfType::Top, ItemStatus::Active, "same");
    a.category = Some("work".into());
    let mut b = record("b", ShelfType::Top, ItemStatus::Active, "same");
    b.category = Some("work".into());
    let mut c = record("c", ShelfType::Top, ItemStatus::Active, "same");
    c.category = Some("home".into());
    let d = record("d", ShelfType::Top, ItemStatus::Active, "same");
    let records = vec![a, b, c, d];
    assert_eq!(ids(&list_items(records.clone(), None, None, Some("work"))), vec!["a", "b"]);
    assert_eq!(ids(&list_items(records.clone(), None, None, Some("none"))), Vec::<String>::new());
    assert_eq!(ids(&list_items(records, None, None, None)), vec!["a", "b", "c", "d"]);
}

#[test]
fn list_items_orders_like_the_due_then_newest_rule() {
    let dues = [None, Some("2024-02-01"), Some("2024-01-15"), None, Some("2024-01-15"), Some("é")];
    let updates = ["2024-01-03", "2024-01-01", "2024-01-02", "2024-01-09", "2024-01-05", "2024-01-01"];
    let mut records = Vec::new();
    for i in 0..dues.len() {
        let mut r = record(&format!("{}", i), ShelfType::Top, ItemStatus::Active, updates[i]);
        r.due_at = dues[i].map(|s| s.to_string());
        records.push(r);
    }
    let listed = list_items(records.clone(), None, None, None);
    let mut expected: Vec<ApiItem> = records.into_iter().map(ApiItem::from).collect();
    expected.sort_by(|l, r| l.due_at.cmp(&r.due_at).then_with(|| r.updated_at.cmp(&l.updated_at)));
    assert_eq!(listed, expected);
}

#[test]
fn found_item_answers_a_missing_item() {
    let a = record("a", ShelfType::Top, ItemStatus::Active, "1");
    assert_eq!(found_item(Some(a.clone())), Ok(a.clone()));
    assert_eq!(found_item(None), Err(ApiError::ItemNotFound));
    assert_eq!(found_item(find_item(vec![a.clone()], "b")), Err(ApiError::ItemNotFound));
    assert_eq!(found_item(find_item(vec![a.clone()], "a")), Ok(a));
}

#[test]
fn update_found_answers_a_missing_item_before_the_change() {
    let mut blank = empty_patch();
    blank.title = Some("   ".into());
    assert_eq!(update_found(None, blank.clone()), Err(ApiError::ItemNotFound));
    assert_eq!(update_found(None, empty_patch()), Err(ApiError::ItemNotFound));
    let a = record("a", ShelfType::Top, ItemStatus::Active, "2000-01-01T00:00:00Z");
    assert_eq!(update_found(Some(a), blank), Err(ApiError::TitleCannotBeEmpty));
}

#[test]
fn update_found_applies_the_change() {
    let a = record("a", ShelfType::Top, ItemStatus::Active, "2000-01-01T00:00:00Z");
    let new = update_found(Some(a.clone()), move_item(MoveItemRequest { shelf_type: ShelfType::Bottom }))
        .unwrap();
    assert_eq!(new.shelf_type, ShelfType::Bottom);
    assert_eq!(new.id, a.id);
    assert_eq!(new.title, a.title);
    assert!(is_stamp(&new.updated_at), "{}", new.updated_at);
    assert_ne!(new.updated_at, a.updated_at);
}

#[test]
fn archived_item_leaves_the_default_listing_and_is_listed_as_archived() {
    let records = vec![
        record("a", ShelfType::Top, ItemStatus::Active, "2024-01-01T00:00:00Z"),
        record("b", ShelfType::Middle, ItemStatus::Active, "2024-01-02T00:00:00Z"),
        record("c", ShelfType::Top, ItemStatus::Archived, "2024-01-03T00:00:00Z"),
    ];
    assert!(ids(&list_items(records.clone(), None, None, None)).contains(&"b".to_string()));
    let found = find_item(records.clone(), "b");
    let archived = update_found(found, archive_item()).unwrap();
    assert_eq!(archived.status, ItemStatus::Archived);
    let stored: Vec<ItemRecord> = records
        .into_iter()
        .map(|r| if r.id == archived.id { archived.clone() } else { r })
        .collect();
    assert_eq!(ids(&list_items(stored.clone(), None, None, None)), vec!["a"]);
    let listed = list_items(stored, None, Some("archived"), None);
    assert_eq!(ids(&listed), vec!["b", "c"]);
    assert!(listed.iter().all(|i| i.status == ItemStatus::Archived));
}
