use shelf_brain::{
    ApiError, ShelfType, ItemStatus, clean_optional, parse_shelf_type, parse_status, shelf_key,
    shelf_sort, trim, user_pk,
};

#[test]
fn trim_removes_outer_white_space() {
    assert_eq!(trim("  buy milk \t\n"), "buy milk");
    assert_eq!(trim("inner  space kept"), "inner  space kept");
    assert_eq!(trim(""), "");
    assert_eq!(trim(" \u{3000}\u{a0} "), "");
    assert_eq!(trim("\u{2003}héllo wörld\u{85}"), "héllo wörld");
}

#[test]
fn trim_agrees_with_std_trim() {
    let samples = [
        "", " ", "a", " a ", "\u{2028}x\u{2029}", "\u{200b}zero width\u{200b}", "\u{1680}ogham",
        "tab\t", "\u{feff}bom\u{feff}", "\u{202f}nnbsp", "日本語 ",
    ];
    for s in samples {
        assert_eq!(trim(s), s.trim(), "for {:?}", s);
    }
}

#[test]
fn trimming_twice_changes_nothing() {
    for s in ["  a b  ", "\u{a0}x", "", "   "] {
        let once = trim(s);
        assert_eq!(trim(&once), once);
    }
}

#[test]
fn clean_optional_trims_and_drops_blank() {
    assert_eq!(clean_optional(None), None);
    assert_eq!(clean_optional(Some("   ".to_string())), None);
    assert_eq!(clean_optional(Some("".to_string())), None);
    assert_eq!(clean_optional(Some(" work ".to_string())), Some("work".to_string()));
    assert_eq!(clean_optional(Some("x".to_string())), Some("x".to_string()));
}

#[test]
fn user_pk_prefixes_the_user() {
    assert_eq!(user_pk("abc"), "USER#abc");
    assert_eq!(user_pk(""), "USER#");
    assert_eq!(user_pk("demo-user"), "USER#demo-user");
}

#[test]
fn parse_shelf_type_reads_the_three_names() {
    assert_eq!(parse_shelf_type("top"), Some(ShelfType::Top));
    assert_eq!(parse_shelf_type("middle"), Some(ShelfType::Middle));
    assert_eq!(parse_shelf_type("bottom"), Some(ShelfType::Bottom));
    assert_eq!(parse_shelf_type("Top"), None);
    assert_eq!(parse_shelf_type(" top"), None);
    assert_eq!(parse_shelf_type(""), None);
    assert_eq!(parse_shelf_type("custom"), None);
}

#[test]
fn parse_status_reads_the_two_names() {
    assert_eq!(parse_status("active"), Some(ItemStatus::Active));
    assert_eq!(parse_status("archived"), Some(ItemStatus::Archived));
    assert_eq!(parse_status("ARCHIVED"), None);
    assert_eq!(parse_status("deleted"), None);
}

#[test]
fn shelf_key_and_sort() {
    assert_eq!(shelf_key(ShelfType::Top), "top");
    assert_eq!(shelf_key(ShelfType::Middle), "middle");
    assert_eq!(shelf_key(ShelfType::Bottom), "bottom");
    assert_eq!(shelf_sort(ShelfType::Top), 0);
    assert_eq!(shelf_sort(ShelfType::Middle), 1);
    assert_eq!(shelf_sort(ShelfType::Bottom), 2);
}

#[test]
fn shelf_names_round_trip() {
    for t in [ShelfType::Top, ShelfType::Middle, ShelfType::Bottom] {
        assert_eq!(parse_shelf_type(shelf_key(t)), Some(t));
    }
}

#[test]
fn errors_have_status_and_message() {
    let cases = [
        (ApiError::InvalidJsonBody, 400, "invalid JSON body"),
        (ApiError::TitleRequired, 400, "title is required"),
        (ApiError::TitleCannotBeEmpty, 400, "title cannot be empty"),
        (ApiError::NameRequired, 400, "name is required"),
        (ApiError::InvalidShelfType, 400, "invalid shelf type"),
        (ApiError::ItemNotFound, 404, "item not found"),
        (ApiError::RouteNotFound, 404, "route not found"),
        (ApiError::DatabaseFailure, 500, "database request failed"),
    ];
    for (e, status, message) in cases {
        assert_eq!(e.status(), status);
        assert_eq!(e.message(), message);
    }
}
