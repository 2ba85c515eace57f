use shelf_brain::{
    ApiError, CategoryRecord, CreateCategoryRequest, ItemRecord, ItemStatus,
    NotificationPreferenceRecord, ShelfType, UpsertPreferenceRequest, build_category,
    build_preference, create_category, list_categories, list_preferences, list_shelves,
    upsert_preference,
};

fn record(id: &str, shelf: ShelfType, status: ItemStatus, updated: &str) -> ItemRecord {
    ItemRecord {
        pk: "USER#u".to_string(),
        sk: format!("ITEM#{}", id),
        entity_type: "item".to_string(),
        id: id.to_string(),
        user_id: "u".to_string(),
        title: id.to_string(),
        shelf_type: shelf,
        category: None,
        due_at: None,
        notes: None,
        status,
        created_at: "c".to_string(),
        updated_at: updated.to_string(),
        last_reviewed_at: None,
    }
}

#[test]
fn empty_overview_has_three_empty_shelves() {
    let shelves = list_shelves(vec![]);
    assert_eq!(shelves.len(), 3);
    let expected = [
        (ShelfType::Top, "Top Shelf", "Needs attention now or soon"),
        (ShelfType::Middle, "Middle Shelf", "Important, revisit soon"),
        (ShelfType::Bottom, "Bottom Shelf", "Future ideas, low pressure"),
    ];
    for (s, (t, name, label)) in shelves.iter().zip(expected) {
        assert_eq!(s.shelf_type, t);
        assert_eq!(s.name, name);
        assert_eq!(s.attention_label, label);
        assert_eq!(s.count, 0);
        assert!(s.preview_items.is_empty());
    }
}

#[test]
fn overview_counts_active_items_and_previews_the_newest_three() {
    let records = vec![
        record("t1", ShelfType::Top, ItemStatus::Active, "2024-01-01"),
        record("t2", ShelfType::Top, ItemStatus::Active, "2024-01-05"),
        record("t3", ShelfType::Top, ItemStatus::Active, "2024-01-03"),
        record("t4", ShelfType::Top, ItemStatus::Active, "2024-01-04"),
        record("t5", ShelfType::Top, ItemStatus::Archived, "2024-01-09"),
        record("m1", ShelfType::Middle, ItemStatus::Active, "2024-01-02"),
        record("b1", ShelfType::Bottom, ItemStatus::Archived, "2024-01-02"),
    ];
    let shelves = list_shelves(records);
    assert_eq!(shelves[0].count, 4);
    let top: Vec<&str> = shelves[0].preview_items.iter().map(|i| i.id.as_str()).collect();
    assert_eq!(top, vec!["t2", "t4", "t3"]);
    assert_eq!(shelves[1].count, 1);
    assert_eq!(shelves[1].preview_items[0].id, "m1");
    assert_eq!(shelves[2].count, 0);
    assert!(shelves[2].preview_items.is_empty());
    let total: usize = shelves.iter().map(|s| s.count).sum();
    assert_eq!(total, 5);
    for s in &shelves {
        for i in &s.preview_items {
            assert_eq!(i.status, ItemStatus::Active);
            assert_eq!(i.shelf_type, s.shelf_type);
        }
    }
}

#[test]
fn overview_keeps_ties_in_stored_order() {
    let records = vec![
        record("x", ShelfType::Bottom, ItemStatus::Active, "same"),
        record("y", ShelfType::Bottom, ItemStatus::Active, "same"),
        record("z", ShelfType::Bottom, ItemStatus::Active, "older-but-bigger?"),
    ];
    let shelves = list_shelves(records);
    let bottom: Vec<&str> = shelves[2].preview_items.iter().map(|i| i.id.as_str()).collect();
    assert_eq!(bottom, vec!["x", "y", "z"]);
}

#[test]
fn extra_archived_records_leave_the_overview() {
    let records = vec![
        record("t1", ShelfType::Top, ItemStatus::Active, "2024-01-01"),
        record("m1", ShelfType::Middle, ItemStatus::Active, "2024-01-02"),
        record("t2", ShelfType::Top, ItemStatus::Active, "2024-01-03"),
    ];
    let more = vec![
        record("x1", ShelfType::Top, ItemStatus::Archived, "2024-02-01"),
        records[0].clone(),
        record("x2", ShelfType::Middle, ItemStatus::Archived, "2024-02-02"),
        records[1].clone(),
        records[2].clone(),
        record("x3", ShelfType::Bottom, ItemStatus::Archived, "2024-02-03"),
    ];
    let plain = list_shelves(records);
    let padded = list_shelves(more);
    assert_eq!(plain.len(), padded.len());
    for (p, q) in plain.iter().zip(padded.iter()) {
        assert_eq!(p.shelf_type, q.shelf_type);
        assert_eq!(p.name, q.name);
        assert_eq!(p.attention_label, q.attention_label);
        assert_eq!(p.count, q.count);
        assert_eq!(p.preview_items, q.preview_items);
    }
    let top: Vec<&str> = padded[0].preview_items.iter().map(|i| i.id.as_str()).collect();
    assert_eq!(top, vec!["t2", "t1"]);
}

fn category(id: &str, name: &str) -> CategoryRecord {
    CategoryRecord {
        pk: "USER#u".into(),
        sk: format!("CATEGORY#{}", id),
        entity_type: "category".into(),
        id: id.into(),
        user_id: "u".into(),
        name: name.into(),
        created_at: "c".into(),
    }
}

#[test]
fn categories_are_listed_by_name() {
    let listed = list_categories(vec![
        category("1", "work"),
        category("2", "Home"),
        category("3", "errands"),
        category("4", "home"),
        category("5", "work"),
        category("6", "Ärger"),
    ]);
    let ids: Vec<&str> = listed.iter().map(|c| c.id.as_str()).collect();
    assert_eq!(ids, vec!["2", "3", "4", "1", "5", "6"]);
}

#[test]
fn build_category_trims_the_name() {
    let c = build_category(
        "u",
        CreateCategoryRequest { name: "  Work ".into() },
        "s1".into(),
        "c1".into(),
        "now".into(),
    )
    .unwrap();
    assert_eq!(c, CategoryRecord {
        pk: "USER#u".into(),
        sk: "CATEGORY#s1".into(),
        entity_type: "category".into(),
        id: "c1".into(),
        user_id: "u".into(),
        name: "Work".into(),
        created_at: "now".into(),
    });
}

#[test]
fn blank_category_name_is_required() {
    assert_eq!(
        create_category("u", CreateCategoryRequest { name: " \t ".into() }),
        Err(ApiError::NameRequired)
    );
    let c = create_category("u", CreateCategoryRequest { name: "x".into() }).unwrap();
    assert!(c.sk.starts_with("CATEGORY#"));
    assert_eq!(c.sk.len(), 9 + 36);
    assert_eq!(c.id.len(), 36);
    assert!(c.created_at.ends_with('Z'));
}

fn preference(shelf: ShelfType, frequency: &str) -> NotificationPreferenceRecord {
    build_preference("u", shelf, UpsertPreferenceRequest { frequency: frequency.into(), enabled: true }, "t".into())
}

#[test]
fn build_preference_keys_by_shelf() {
    let p = build_preference(
        "alice",
        ShelfType::Bottom,
        UpsertPreferenceRequest { frequency: "monthly".into(), enabled: false },
        "now".into(),
    );
    assert_eq!(p, NotificationPreferenceRecord {
        pk: "USER#alice".into(),
        sk: "PREF#bottom".into(),
        entity_type: "notificationPreference".into(),
        user_id: "alice".into(),
        shelf_type: ShelfType::Bottom,
        frequency: "monthly".into(),
        enabled: false,
        created_at: "now".into(),
        updated_at: "now".into(),
    });
    let again = preference(ShelfType::Bottom, "weekly");
    assert_eq!(again.sk, p.sk);
    assert_ne!(preference(ShelfType::Top, "daily").sk, p.sk);
}

#[test]
fn preferences_are_listed_top_to_bottom() {
    let listed = list_preferences(vec![
        preference(ShelfType::Bottom, "b"),
        preference(ShelfType::Top, "t1"),
        preference(ShelfType::Middle, "m"),
        preference(ShelfType::Top, "t2"),
    ]);
    let f: Vec<&str> = listed.iter().map(|p| p.frequency.as_str()).collect();
    assert_eq!(f, vec!["t1", "t2", "m", "b"]);
}

#[test]
fn upsert_preference_checks_the_shelf_first() {
    let body = || Ok(UpsertPreferenceRequest { frequency: "daily".into(), enabled: true });
    assert_eq!(upsert_preference("u", "attic", body()), Err(ApiError::InvalidShelfType));
    assert_eq!(
        upsert_preference("u", "attic", Err(ApiError::InvalidJsonBody)),
        Err(ApiError::InvalidShelfType)
    );
    assert_eq!(
        upsert_preference("u", "top", Err(ApiError::InvalidJsonBody)),
        Err(ApiError::InvalidJsonBody)
    );
    let p = upsert_preference("u", "middle", body()).unwrap();
    assert_eq!(p.sk, "PREF#middle");
    assert_eq!(p.shelf_type, ShelfType::Middle);
    assert_eq!(p.frequency, "daily");
    assert!(p.enabled);
    assert_eq!(p.created_at, p.updated_at);
    assert!(p.created_at.ends_with('Z'));
}

#[test]
fn writes_are_keyed_by_the_user() {
    let category = create_category("vera", CreateCategoryRequest { name: "Work".into() }).unwrap();
    assert_eq!(category.pk, "USER#vera");
    assert_eq!(category.user_id, "vera");
    let body = UpsertPreferenceRequest { frequency: "weekly".into(), enabled: false };
    let pref = upsert_preference("vera", "bottom", Ok(body)).unwrap();
    assert_eq!(pref.pk, "USER#vera");
    assert_eq!(pref.user_id, "vera");
    let item = shelf_brain::create_item(
        "vera",
        shelf_brain::CreateItemRequest {
            title: "Plan trip".into(),
            shelf_type: None,
            category: None,
            due_at: None,
            notes: None,
        },
    )
    .unwrap();
    assert_eq!(item.pk, "USER#vera");
    assert_eq!(item.user_id, "vera");
    let archived = shelf_brain::update_found(Some(item.clone()), shelf_brain::archive_item()).unwrap();
    assert_eq!(archived.pk, "USER#vera");
    assert_eq!(archived.sk, item.sk);
    assert_eq!(archived.user_id, "vera");
}
