use quotator::db::Database;
use quotator::handlers::{
    best_match, crawl_reply, create_item, create_quote, delete_item, delete_quote, get_all_pricing,
    get_items, get_quote, get_quotes, get_quotes_paginated, health_check, update_item,
    update_quote, ApiResponse, CrawlOutcome,
};
use quotator::models::{
    ApiError, BestMatchQuery, CreateQuote, CreateQuoteItem, Flavor, PaginationQuery, UpdateQuote,
    UpdateQuoteItem,
};

fn flavor(id: &str, vcpus: u32, ram_mb: u64, price_hourly: u64) -> Flavor {
    Flavor {
        id: id.to_string(),
        name: format!("flavor-{}", id),
        vcpus,
        ram_mb,
        price_hourly,
        price_monthly: 0,
        price_yearly_1: 0,
        price_yearly_3: 0,
        region: "eu".to_string(),
        created_at: 0,
    }
}

fn no_fields() -> CreateQuoteItem {
    CreateQuoteItem {
        flavor_id: None,
        flavor_name: None,
        vcpus: None,
        ram_mb: None,
        flavor_price: None,
        disk_type_id: None,
        disk_type_name: None,
        disk_size_gb: None,
        disk_price: None,
        hostname: None,
        code_number: None,
        description: None,
    }
}

fn no_updates() -> UpdateQuoteItem {
    UpdateQuoteItem {
        flavor_id: None,
        flavor_name: None,
        vcpus: None,
        ram_mb: None,
        flavor_price: None,
        disk_type_id: None,
        disk_type_name: None,
        disk_size_gb: None,
        disk_price: None,
        hostname: None,
        code_number: None,
        description: None,
    }
}

fn plain_query() -> PaginationQuery {
    PaginationQuery { page: None, limit: None, sort_by: None, sort_order: None, search: None }
}

#[test]
fn health_payload_names_the_service() {
    let h = health_check();
    assert_eq!(h.status, "ok");
    assert_eq!(h.service, "quotator-api");
    assert_eq!(h.version, "1.0.0");
}

#[test]
fn crawl_reply_is_always_a_success_payload() {
    match crawl_reply(CrawlOutcome::Success) {
        ApiResponse::Success(s) => {
            assert_eq!(s.status, "ok");
            assert_eq!(s.message, "Crawl triggered successfully");
        }
        _ => panic!("crawl reply must be a success"),
    }
    match crawl_reply(CrawlOutcome::HttpError) {
        ApiResponse::Success(s) => {
            assert_eq!(s.status, "warning");
            assert_eq!(s.message, "Crawler may not be running");
        }
        _ => panic!("crawl reply must be a success"),
    }
    match crawl_reply(CrawlOutcome::Unreachable) {
        ApiResponse::Success(s) => {
            assert_eq!(s.status, "warning");
            assert_eq!(s.message, "Crawler service not available");
        }
        _ => panic!("crawl reply must be a success"),
    }
}

#[test]
fn created_quotes_carry_fresh_identifiers() {
    let mut db = Database::new();
    let a = match create_quote(&mut db, CreateQuote { name: "one".to_string() }) {
        ApiResponse::Created(q) => q,
        _ => panic!("creation must answer created"),
    };
    let b = match create_quote(&mut db, CreateQuote { name: "two".to_string() }) {
        ApiResponse::Created(q) => q,
        _ => panic!("creation must answer created"),
    };
    assert_eq!(a.id.len(), 36);
    assert_eq!(b.id.len(), 36);
    assert_ne!(a.id, b.id);
    assert_eq!(a.created_at, a.updated_at);
    match get_quote(&db, &a.id) {
        ApiResponse::Success(q) => assert_eq!(q.name, "one"),
        _ => panic!("created quote must be fetchable"),
    }
}

#[test]
fn fetching_unknown_quote_is_not_found() {
    let db = Database::new();
    match get_quote(&db, "missing") {
        ApiResponse::NotFound(e) => assert_eq!(e.code, "NOT_FOUND"),
        _ => panic!("a miss must answer not found"),
    }
}

#[test]
fn empty_rename_body_is_rejected_and_store_unchanged() {
    let mut db = Database::new();
    let q = match create_quote(&mut db, CreateQuote { name: "one".to_string() }) {
        ApiResponse::Created(q) => q,
        _ => panic!("creation must answer created"),
    };
    match update_quote(&mut db, &q.id, UpdateQuote { name: None }) {
        ApiResponse::BadRequest(e) => assert_eq!(e.code, "BAD_REQUEST"),
        _ => panic!("an empty body must be rejected"),
    }
    match get_quote(&db, &q.id) {
        ApiResponse::Success(got) => {
            assert_eq!(got.name, "one");
            assert_eq!(got.updated_at, q.updated_at);
        }
        _ => panic!("the quote must still exist"),
    }
}

#[test]
fn rename_with_name_succeeds() {
    let mut db = Database::new();
    let q = match create_quote(&mut db, CreateQuote { name: "one".to_string() }) {
        ApiResponse::Created(q) => q,
        _ => panic!("creation must answer created"),
    };
    match update_quote(&mut db, &q.id, UpdateQuote { name: Some("renamed".to_string()) }) {
        ApiResponse::Success(()) => {}
        _ => panic!("a rename with a name must succeed"),
    }
    match get_quote(&db, &q.id) {
        ApiResponse::Success(got) => assert_eq!(got.name, "renamed"),
        _ => panic!("the quote must still exist"),
    }
}

#[test]
fn delete_quote_acknowledges_even_for_unknown_id() {
    let mut db = Database::new();
    match delete_quote(&mut db, "missing") {
        ApiResponse::Success(()) => {}
        _ => panic!("deletes always acknowledge"),
    }
}

#[test]
fn item_creation_under_unknown_quote_is_not_found() {
    let mut db = Database::new();
    match create_item(&mut db, "missing", no_fields()) {
        ApiResponse::NotFound(e) => assert_eq!(e.code, "NOT_FOUND"),
        _ => panic!("an unknown quote must answer not found"),
    }
}

#[test]
fn item_update_with_empty_body_is_rejected() {
    let mut db = Database::new();
    let q = match create_quote(&mut db, CreateQuote { name: "one".to_string() }) {
        ApiResponse::Created(q) => q,
        _ => panic!("creation must answer created"),
    };
    let it = match create_item(&mut db, &q.id, no_fields()) {
        ApiResponse::Created(it) => it,
        _ => panic!("item creation must answer created"),
    };
    match update_item(&mut db, &it.id, no_updates()) {
        ApiResponse::BadRequest(e) => assert_eq!(e.code, "BAD_REQUEST"),
        _ => panic!("an empty body must be rejected"),
    }
}

#[test]
fn item_lifecycle_through_the_request_layer() {
    let mut db = Database::new();
    let q = match create_quote(&mut db, CreateQuote { name: "one".to_string() }) {
        ApiResponse::Created(q) => q,
        _ => panic!("creation must answer created"),
    };
    let mut fields = no_fields();
    fields.hostname = Some("db-01".to_string());
    let it = match create_item(&mut db, &q.id, fields) {
        ApiResponse::Created(it) => it,
        _ => panic!("item creation must answer created"),
    };
    assert_eq!(it.quote_id, q.id);
    assert_eq!(it.created_at, it.updated_at);
    let mut patch = no_updates();
    patch.code_number = Some("X-9".to_string());
    match update_item(&mut db, &it.id, patch) {
        ApiResponse::Success(()) => {}
        _ => panic!("the patch must succeed"),
    }
    let listed = match get_items(&db, &q.id) {
        ApiResponse::Success(v) => v,
        _ => panic!("listing must succeed"),
    };
    assert_eq!(listed.len(), 1);
    assert_eq!(listed[0].hostname.as_deref(), Some("db-01"));
    assert_eq!(listed[0].code_number.as_deref(), Some("X-9"));
    match delete_item(&mut db, &it.id) {
        ApiResponse::Success(()) => {}
        _ => panic!("deletes always acknowledge"),
    }
    match get_items(&db, &q.id) {
        ApiResponse::Success(v) => assert!(v.is_empty()),
        _ => panic!("listing must succeed"),
    }
}

#[test]
fn best_match_requires_both_parameters() {
    let db = Database::new();
    match best_match(&db, &BestMatchQuery { vcpus: None, ram_mb: Some(1024) }) {
        ApiResponse::BadRequest(e) => assert_eq!(e.code, "BAD_REQUEST"),
        _ => panic!("a missing parameter must be rejected"),
    }
    match best_match(&db, &BestMatchQuery { vcpus: Some(2), ram_mb: None }) {
        ApiResponse::BadRequest(_) => {}
        _ => panic!("a missing parameter must be rejected"),
    }
}

#[test]
fn best_match_answers_cheapest_qualifiers() {
    let mut db = Database::new();
    db.add_flavor(flavor("a", 2, 4096, 100_000));
    db.add_flavor(flavor("b", 4, 8192, 50_000));
    db.add_flavor(flavor("c", 4, 16384, 200_000));
    match best_match(&db, &BestMatchQuery { vcpus: Some(4), ram_mb: Some(8192) }) {
        ApiResponse::Success(v) => {
            let ids: Vec<&str> = v.iter().map(|f| f.id.as_str()).collect();
            assert_eq!(ids, vec!["b", "c"]);
        }
        _ => panic!("a well-formed query must succeed"),
    }
}

#[test]
fn pricing_payload_combines_both_catalogs() {
    let mut db = Database::new();
    db.add_flavor(flavor("a", 2, 4096, 7));
    match get_all_pricing(&db) {
        ApiResponse::Success(p) => {
            assert_eq!(p.flavors.len(), 1);
            assert!(p.disk_types.is_empty());
        }
        _ => panic!("pricing must succeed"),
    }
}

#[test]
fn legacy_quote_listing_succeeds() {
    let mut db = Database::new();
    db.create_quote("a".to_string(), "q1".to_string(), 100);
    db.create_quote("b".to_string(), "q2".to_string(), 200);
    match get_quotes(&db) {
        ApiResponse::Success(v) => {
            let ids: Vec<&str> = v.iter().map(|q| q.id.as_str()).collect();
            assert_eq!(ids, vec!["q2", "q1"]);
        }
        _ => panic!("listing must succeed"),
    }
}

#[test]
fn paginated_listing_applies_defaults_and_allow_list() {
    let mut db = Database::new();
    for i in 0..12i64 {
        db.create_quote(format!("quote {}", i), format!("q{}", i), 100 + i);
    }
    let mut pq = plain_query();
    pq.page = Some(2);
    pq.limit = Some(5);
    match get_quotes_paginated(&db, &pq) {
        ApiResponse::Success(p) => {
            assert_eq!(p.data.len(), 5);
            assert_eq!(p.total, 12);
            assert_eq!(p.total_pages, 3);
        }
        _ => panic!("listing must succeed"),
    }
    let defaults = match get_quotes_paginated(&db, &plain_query()) {
        ApiResponse::Success(p) => p,
        _ => panic!("listing must succeed"),
    };
    assert_eq!(defaults.page, 1);
    assert_eq!(defaults.limit, 10);
    assert_eq!(defaults.data.len(), 10);
    let mut odd = plain_query();
    odd.sort_by = Some("name; drop table".to_string());
    odd.sort_order = Some("sideways".to_string());
    let fallback = match get_quotes_paginated(&db, &odd) {
        ApiResponse::Success(p) => p,
        _ => panic!("listing must succeed"),
    };
    // unknown sort key and order fall back to updated_at descending
    assert_eq!(fallback.data[0].id, "q11");
    let mut asc = plain_query();
    asc.sort_by = Some("created_at".to_string());
    asc.sort_order = Some("asc".to_string());
    let ordered = match get_quotes_paginated(&db, &asc) {
        ApiResponse::Success(p) => p,
        _ => panic!("listing must succeed"),
    };
    assert_eq!(ordered.data[0].id, "q0");
}

#[test]
fn paginated_zero_page_and_limit_fall_back_to_defaults() {
    let mut db = Database::new();
    db.create_quote("a".to_string(), "q1".to_string(), 100);
    let mut pq = plain_query();
    pq.page = Some(0);
    pq.limit = Some(0);
    match get_quotes_paginated(&db, &pq) {
        ApiResponse::Success(p) => {
            assert_eq!(p.page, 1);
            assert_eq!(p.limit, 10);
            assert_eq!(p.data.len(), 1);
            assert_eq!(p.total, 1);
            assert_eq!(p.total_pages, 1);
        }
        _ => panic!("listing must succeed"),
    }
}

#[test]
fn paginated_search_folds_ascii_case() {
    let mut db = Database::new();
    db.create_quote("Production".to_string(), "q1".to_string(), 100);
    db.create_quote("staging".to_string(), "q2".to_string(), 200);
    let mut pq = plain_query();
    pq.search = Some("PROD".to_string());
    match get_quotes_paginated(&db, &pq) {
        ApiResponse::Success(p) => {
            assert_eq!(p.total, 1);
            assert_eq!(p.data[0].id, "q1");
        }
        _ => panic!("listing must succeed"),
    }
}

#[test]
fn api_error_constructors_fill_the_fields() {
    let plain = ApiError::new("broken", "INTERNAL_ERROR");
    assert_eq!(plain.error, "broken");
    assert_eq!(plain.code, "INTERNAL_ERROR");
    assert!(plain.details.is_none());
    let detailed = ApiError::with_details("broken", "INTERNAL_ERROR", "more words");
    assert_eq!(detailed.details.as_deref(), Some("more words"));
}
