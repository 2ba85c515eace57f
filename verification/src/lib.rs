//! Verified core of the ShelfBrain backend: shelves, items, categories and
//! notification preferences, the request routing, and the rules that turn
//! requests into stored records and stored records into responses.

pub mod text;
pub mod order;
pub mod model;
pub mod errors;
pub mod external;
pub mod items;
pub mod shelves;
pub mod categories;
pub mod preferences;
pub mod routing;
pub mod ownership;

pub use categories::{ByName, build_category, create_category, list_categories};
pub use errors::ApiError;
pub use items::{
    DueSoonest, NewestFirst, apply_update, archive_item, build_item, create_item, find_item,
    found_item, update_found,
    list_items, move_item, update_item,
};
pub use model::{
    ApiItem, CategoryRecord, CreateCategoryRequest, CreateItemRequest, ItemRecord, ItemStatus,
    MoveItemRequest, NotificationPreferenceRecord, ShelfType, UpdateItemRequest,
    UpsertPreferenceRequest, clean_optional, parse_shelf_type, parse_status, shelf_key, shelf_sort,
    user_pk,
};
pub use preferences::{ByShelf, build_preference, list_preferences, upsert_preference};
pub use routing::{HttpMethod, Route, normalize_path, request_user, route_request};
pub use shelves::{ShelfSummary, list_shelves};
pub use text::trim;
