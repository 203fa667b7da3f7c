use archivemind::payloads::{
    default_extension, default_note_type, note_order, require_name, title_or_default, NoteOrder, ChangePasswordRequest, CreateConcept, CreateEntity,
    CreateFieldTrip, CreateInventoryItem, EntityFilters, NoteCount, RegisterRequest, Rejection,
    SearchParams, MIN_PASSWORD_LEN,
};
use archivemind::response::{
    resolve_offset, resolve_page, resolve_page_size, ApiResponse, Meta, PaginationParams,
};
use archivemind::text::{escape_like, truncate_text, try_truncate_text};

fn paging(page: Option<i64>, per_page: Option<i64>) -> PaginationParams {
    PaginationParams { page, per_page }
}

#[test]
fn page_defaults_and_bounds() {
    assert_eq!(paging(None, None).page(), 1);
    assert_eq!(paging(Some(3), None).page(), 3);
    assert_eq!(paging(Some(1), None).page(), 1);
    assert_eq!(paging(Some(0), None).page(), 1);
    assert_eq!(paging(Some(-7), None).page(), 1);
    assert_eq!(paging(Some(i64::MIN), None).page(), 1);
    assert_eq!(paging(Some(i64::MAX), None).page(), i64::MAX);
}

#[test]
fn page_size_defaults_and_bounds() {
    assert_eq!(paging(None, None).per_page(), 20);
    assert_eq!(paging(None, Some(50)).per_page(), 50);
    assert_eq!(paging(None, Some(1)).per_page(), 1);
    assert_eq!(paging(None, Some(100)).per_page(), 100);
    assert_eq!(paging(None, Some(101)).per_page(), 100);
    assert_eq!(paging(None, Some(0)).per_page(), 1);
    assert_eq!(paging(None, Some(-3)).per_page(), 1);
    assert_eq!(paging(None, Some(i64::MAX)).per_page(), 100);
}

#[test]
fn offsets() {
    assert_eq!(paging(None, None).offset(), 0);
    assert_eq!(paging(Some(1), Some(50)).offset(), 0);
    assert_eq!(paging(Some(2), None).offset(), 20);
    assert_eq!(paging(Some(3), Some(25)).offset(), 50);
    assert_eq!(paging(Some(4), Some(1000)).offset(), 300);
    assert_eq!(paging(Some(-4), Some(10)).offset(), 0);
    assert_eq!(paging(Some(3), Some(25)).checked_offset(), Some(50));
    assert_eq!(paging(None, None).checked_offset(), Some(0));
    assert_eq!(paging(Some(i64::MAX), Some(100)).checked_offset(), None);
    assert_eq!(paging(Some(i64::MAX), Some(1)).checked_offset(), Some(i64::MAX - 1));
    let last = i64::MAX / 100 + 1;
    assert_eq!(paging(Some(last), Some(100)).checked_offset(), Some((last - 1) * 100));
    assert_eq!(paging(Some(last + 1), Some(100)).checked_offset(), None);
}

#[test]
fn paging_with_another_default() {
    assert_eq!(resolve_page(None), 1);
    assert_eq!(resolve_page_size(None, 50), 50);
    assert_eq!(resolve_page_size(None, 500), 100);
    assert_eq!(resolve_page_size(None, 0), 1);
    assert_eq!(resolve_page_size(Some(7), 50), 7);
    assert_eq!(resolve_offset(Some(3), None, 50), Some(100));
    let filters = EntityFilters { entity_type: Some("person".to_string()), page: Some(2), per_page: None };
    assert_eq!(filters.page(), 2);
    assert_eq!(filters.per_page(), 50);
    assert_eq!(filters.offset(), Some(50));
    let all = EntityFilters { entity_type: None, page: None, per_page: Some(200) };
    assert_eq!((all.page(), all.per_page(), all.offset()), (1, 100, Some(0)));
}

#[test]
fn response_envelopes() {
    let plain = ApiResponse::ok(vec![1, 2, 3]);
    assert_eq!(plain.data, vec![1, 2, 3]);
    assert_eq!(plain.meta, None);
    let listed = ApiResponse::list("rows", 41, 3, 20);
    assert_eq!(listed.data, "rows");
    assert_eq!(listed.meta, Some(Meta { total: 41, page: Some(3), per_page: Some(20) }));
    let counts = NoteCount { total: 5, starred: 2, deleted: 1 };
    assert_eq!(ApiResponse::ok(counts).data, counts);
}

#[test]
fn like_patterns_are_escaped() {
    assert_eq!(escape_like("plain"), "plain");
    assert_eq!(escape_like(""), "");
    assert_eq!(escape_like("100%"), "100\\%");
    assert_eq!(escape_like("a_b"), "a\\_b");
    assert_eq!(escape_like("back\\slash"), "back\\\\slash");
    assert_eq!(escape_like("\\%_"), "\\\\\\%\\_");
    assert_eq!(escape_like("%%"), "\\%\\%");
    assert_eq!(escape_like("Galle_%\\ñ"), "Galle\\_\\%\\\\ñ");
    let search = SearchParams { q: "50%_off".to_string(), page: None, per_page: None };
    assert_eq!(search.like_pattern(), "%50\\%\\_off%");
    let empty = SearchParams { q: String::new(), page: None, per_page: None };
    assert_eq!(empty.like_pattern(), "%%");
}

#[test]
fn long_texts_are_cut() {
    assert_eq!(truncate_text("field note", 5), "field...");
    assert_eq!(truncate_text("field note", 10), "field note");
    assert_eq!(truncate_text("field note", 11), "field note");
    assert_eq!(truncate_text("field note", 0), "...");
    assert_eq!(truncate_text("", 0), "");
    assert_eq!(truncate_text("añil", 3), "añ...");
    assert_eq!(try_truncate_text("añil", 3), Some("añ...".to_string()));
    assert_eq!(try_truncate_text("añil", 2), None);
    assert_eq!(try_truncate_text("añil", 1), Some("a...".to_string()));
    assert_eq!(try_truncate_text("añil", 5), Some("añil".to_string()));
    assert_eq!(try_truncate_text("añil", 9), Some("añil".to_string()));
}

#[test]
fn names_are_required() {
    assert_eq!(require_name(&"Kandy".to_string()), Ok(()));
    assert_eq!(require_name(&" ".to_string()), Ok(()));
    assert_eq!(require_name(&String::new()), Err(Rejection::NameRequired));
    let concept = |name: &str| CreateConcept { name: name.to_string(), category: None, icon: None };
    assert_eq!(concept("Ritual").validate(), Ok(()));
    assert_eq!(concept("").validate(), Err(Rejection::NameRequired));
    let entity = |name: &str| CreateEntity {
        name: name.to_string(),
        entity_type: "person".to_string(),
        role: None,
        avatar_initials: None,
    };
    assert_eq!(entity("Priya").validate(), Ok(()));
    assert_eq!(entity("").validate(), Err(Rejection::NameRequired));
    let trip = |name: &str| CreateFieldTrip { name: name.to_string(), icon: None };
    assert_eq!(trip("Ella Caves Survey").validate(), Ok(()));
    assert_eq!(trip("").validate(), Err(Rejection::NameRequired));
}

#[test]
fn inventory_defaults() {
    let bare = CreateInventoryItem { name: "Tent".to_string(), icon: None, status: None, sort_order: None };
    assert_eq!(bare.validate(), Ok(()));
    assert_eq!(bare.status_or_default(), "packed");
    assert_eq!(bare.sort_order_or_default(), 0);
    let full = CreateInventoryItem {
        name: String::new(),
        icon: Some("x".to_string()),
        status: Some("missing".to_string()),
        sort_order: Some(-4),
    };
    assert_eq!(full.validate(), Err(Rejection::NameRequired));
    assert_eq!(full.status_or_default(), "missing");
    assert_eq!(full.sort_order_or_default(), -4);
}

#[test]
fn registrations() {
    let request = |email: &str, password: &str, name: &str| RegisterRequest {
        email: email.to_string(),
        password: password.to_string(),
        display_name: name.to_string(),
    };
    assert_eq!(MIN_PASSWORD_LEN, 8);
    assert_eq!(request("a@b.c", "12345678", "Ada").validate(), Ok(()));
    assert_eq!(request("a@b.c", "1234567", "Ada").validate(), Err(Rejection::PasswordTooShort));
    assert_eq!(request("a@b.c", "ññññ", "Ada").validate(), Ok(()));
    assert_eq!(request("", "12345678", "Ada").validate(), Err(Rejection::FieldsRequired));
    assert_eq!(request("a@b.c", "", "Ada").validate(), Err(Rejection::FieldsRequired));
    assert_eq!(request("a@b.c", "12345678", "").validate(), Err(Rejection::FieldsRequired));
    assert_eq!(request("", "short", "").validate(), Err(Rejection::FieldsRequired));
}

#[test]
fn password_changes() {
    let change = |new: &str| ChangePasswordRequest {
        current_password: "old".to_string(),
        new_password: new.to_string(),
    };
    assert_eq!(change("12345678").validate(), Ok(()));
    assert_eq!(change("a much longer password").validate(), Ok(()));
    assert_eq!(change("1234567").validate(), Err(Rejection::PasswordTooShort));
    assert_eq!(change("").validate(), Err(Rejection::PasswordTooShort));
}

#[test]
fn note_type_default() {
    assert_eq!(default_note_type(), "field_note");
}

#[test]
fn order_of_a_list_of_notes() {
    assert_eq!(note_order(None, None), NoteOrder::CreatedDescending);
    assert_eq!(note_order(None, Some("asc")), NoteOrder::CreatedAscending);
    assert_eq!(note_order(None, Some("desc")), NoteOrder::CreatedDescending);
    assert_eq!(note_order(Some("created_at"), Some("asc")), NoteOrder::CreatedAscending);
    assert_eq!(note_order(Some("updated_at"), Some("asc")), NoteOrder::UpdatedAscending);
    assert_eq!(note_order(Some("updated_at"), None), NoteOrder::UpdatedDescending);
    assert_eq!(note_order(Some("updated_at"), Some("ASC")), NoteOrder::UpdatedDescending);
    assert_eq!(note_order(Some("title"), Some("asc")), NoteOrder::TitleAscending);
    assert_eq!(note_order(Some("title"), Some("down")), NoteOrder::TitleDescending);
    assert_eq!(note_order(Some("Title"), Some("asc")), NoteOrder::CreatedAscending);
    assert_eq!(note_order(Some(""), None), NoteOrder::CreatedDescending);
}

#[test]
fn defaults_for_titles_and_extensions() {
    assert_eq!(title_or_default(""), "Untitled");
    assert_eq!(title_or_default("Morning walk"), "Morning walk");
    assert_eq!(title_or_default(" "), " ");
    assert_eq!(default_extension("audio"), "webm");
    assert_eq!(default_extension("photo"), "jpg");
    assert_eq!(default_extension(""), "jpg");
    assert_eq!(default_extension("Audio"), "jpg");
}
