use shelf_brain::{HttpMethod, Route, normalize_path, request_user, route_request};
use shelf_brain::HttpMethod::{Delete, Get, Other, Patch, Post, Put};

fn segs(v: &[&str]) -> Vec<String> {
    v.iter().map(|s| s.to_string()).collect()
}

#[test]
fn normalize_path_splits_and_drops_empty_segments() {
    assert_eq!(normalize_path("/items/abc"), segs(&["items", "abc"]));
    assert_eq!(normalize_path("items/abc/"), segs(&["items", "abc"]));
    assert_eq!(normalize_path("//items//abc//move//"), segs(&["items", "abc", "move"]));
    assert_eq!(normalize_path("/"), segs(&[]));
    assert_eq!(normalize_path(""), segs(&[]));
    assert_eq!(normalize_path("health"), segs(&["health"]));
    assert_eq!(normalize_path("/é/ü"), segs(&["é", "ü"]));
}

#[test]
fn outer_slashes_do_not_change_segments() {
    for p in ["a/b", "/a/b", "a/b/", "/a//b/"] {
        assert_eq!(normalize_path(p), segs(&["a", "b"]));
    }
}

#[test]
fn routes_of_the_api() {
    let cases: Vec<(HttpMethod, &str, Route)> = vec![
        (Get, "/", Route::Health),
        (Get, "", Route::Health),
        (Get, "/health", Route::Health),
        (Get, "/shelves", Route::ListShelves),
        (Get, "/items", Route::ListItems),
        (Post, "/items", Route::CreateItem),
        (Get, "/items/42", Route::GetItem("42".to_string())),
        (Patch, "/items/42", Route::UpdateItem("42".to_string())),
        (Post, "/items/42/move", Route::MoveItem("42".to_string())),
        (Post, "/items/42/archive", Route::ArchiveItem("42".to_string())),
        (Delete, "/items/42", Route::DeleteItem("42".to_string())),
        (Get, "/categories", Route::ListCategories),
        (Post, "/categories", Route::CreateCategory),
        (Get, "/notification-preferences", Route::ListPreferences),
        (Put, "/notification-preferences/top", Route::UpsertPreference("top".to_string())),
        (Put, "/notification-preferences/nowhere", Route::UpsertPreference("nowhere".to_string())),
    ];
    for (m, p, r) in cases {
        assert_eq!(route_request(m, p), r, "for {:?} {}", m, p);
    }
}

#[test]
fn unknown_routes_are_not_found() {
    let cases: Vec<(HttpMethod, &str)> = vec![
        (Post, "/health"),
        (Delete, "/items"),
        (Get, "/items/1/move"),
        (Post, "/items/1/delete"),
        (Patch, "/items"),
        (Put, "/notification-preferences"),
        (Get, "/nothing"),
        (Other, "/health"),
        (Get, "/health/x"),
        (Post, "/items/1"),
    ];
    for (m, p) in cases {
        assert_eq!(route_request(m, p), Route::NotFound, "for {:?} {}", m, p);
    }
}

#[test]
fn request_user_defaults_to_demo_user() {
    assert_eq!(request_user(Some("alice")), "alice");
    assert_eq!(request_user(None), "demo-user");
    assert_eq!(request_user(Some("")), "");
}

#[test]
fn success_status_of_routes() {
    assert_eq!(Route::CreateItem.success_status(), 201);
    assert_eq!(Route::CreateCategory.success_status(), 201);
    assert_eq!(Route::Health.success_status(), 200);
    assert_eq!(Route::ListShelves.success_status(), 200);
    assert_eq!(Route::ArchiveItem("a".to_string()).success_status(), 200);
    assert_eq!(Route::DeleteItem("a".to_string()).success_status(), 200);
    assert_eq!(Route::UpsertPreference("top".to_string()).success_status(), 200);
    assert_eq!(route_request(Post, "/items").success_status(), 201);
    assert_eq!(route_request(Post, "/categories").success_status(), 201);
    assert_eq!(route_request(Put, "/items/a").success_status(), 200);
}

#[test]
fn rejoined_segments_split_the_same() {
    for p in ["", "/", "//", "items", "/items/abc/", "a//b///c", "/notification-preferences/top"] {
        let segs = normalize_path(p);
        assert_eq!(normalize_path(&segs.join("/")), segs, "{}", p);
        assert_eq!(normalize_path(&format!("/{}/", p)), segs, "{}", p);
    }
}
