use quotator::db::Database;
use quotator::models::{CreateQuoteItem, DiskType, Flavor, UpdateQuoteItem};

fn flavor(id: &str, vcpus: u32, ram_mb: u64, price_hourly: u64) -> Flavor {
    Flavor {
        id: id.to_string(),
        name: format!("flavor-{}", id),
        vcpus,
        ram_mb,
        price_hourly,
        price_monthly: 0,
        price_yearly_1: 0,
        price_yearly_3: 0,
        region: "eu".to_string(),
        created_at: 0,
    }
}

fn disk(id: &str, price_per_gb: u64) -> DiskType {
    DiskType {
        id: id.to_string(),
        name: format!("disk-{}", id),
        price_per_gb,
        region: "eu".to_string(),
        created_at: 0,
    }
}

fn no_fields() -> CreateQuoteItem {
    CreateQuoteItem {
        flavor_id: None,
        flavor_name: None,
        vcpus: None,
        ram_mb: None,
        flavor_price: None,
        disk_type_id: None,
        disk_type_name: None,
        disk_size_gb: None,
        disk_price: None,
        hostname: None,
        code_number: None,
        description: None,
    }
}

fn no_updates() -> UpdateQuoteItem {
    UpdateQuoteItem {
        flavor_id: None,
        flavor_name: None,
        vcpus: None,
        ram_mb: None,
        flavor_price: None,
        disk_type_id: None,
        disk_type_name: None,
        disk_size_gb: None,
        disk_price: None,
        hostname: None,
        code_number: None,
        description: None,
    }
}

#[test]
fn quote_creation_sets_equal_timestamps() {
    let mut db = Database::new();
    let q = db.create_quote("alpha".to_string(), "q1".to_string(), 100);
    assert_eq!(q.created_at, 100);
    assert_eq!(q.updated_at, 100);
    assert_eq!(q.id, "q1");
    assert_eq!(q.name, "alpha");
}

#[test]
fn rename_refreshes_updated_at_and_keeps_created_at() {
    let mut db = Database::new();
    db.create_quote("alpha".to_string(), "q1".to_string(), 100);
    db.update_quote("q1", "beta".to_string(), 250);
    let q = db.get_quote("q1").expect("quote should exist");
    assert_eq!(q.name, "beta");
    assert_eq!(q.created_at, 100);
    assert_eq!(q.updated_at, 250);
    db.update_quote("q1", "gamma".to_string(), 300);
    let q2 = db.get_quote("q1").expect("quote should exist");
    assert!(q2.updated_at >= q.updated_at);
}

#[test]
fn rename_unknown_quote_is_a_noop_success() {
    let mut db = Database::new();
    db.create_quote("alpha".to_string(), "q1".to_string(), 100);
    db.update_quote("missing", "beta".to_string(), 250);
    let q = db.get_quote("q1").expect("quote should exist");
    assert_eq!(q.name, "alpha");
    assert_eq!(q.updated_at, 100);
}

#[test]
fn delete_quote_cascades_and_is_idempotent() {
    let mut db = Database::new();
    db.create_quote("alpha".to_string(), "q1".to_string(), 100);
    db.create_quote("beta".to_string(), "q2".to_string(), 110);
    db.create_item("q1", no_fields(), "i1".to_string(), 120);
    db.create_item("q1", no_fields(), "i2".to_string(), 130);
    db.create_item("q2", no_fields(), "i3".to_string(), 140);
    db.delete_quote("q1");
    assert!(db.get_quote("q1").is_none());
    assert!(db.get_items("q1").is_empty());
    assert_eq!(db.get_items("q2").len(), 1);
    db.delete_quote("q1");
    assert!(db.get_items("q1").is_empty());
    assert_eq!(db.get_items("q2").len(), 1);
}

#[test]
fn partial_update_preserves_unspecified_fields() {
    let mut db = Database::new();
    db.create_quote("alpha".to_string(), "q1".to_string(), 100);
    let mut fields = no_fields();
    fields.hostname = Some("h1".to_string());
    fields.description = Some("d1".to_string());
    db.create_item("q1", fields, "i1".to_string(), 120);
    let mut patch = no_updates();
    patch.description = Some("d2".to_string());
    db.update_item("i1", &patch, 200);
    let items = db.get_items("q1");
    assert_eq!(items.len(), 1);
    assert_eq!(items[0].hostname.as_deref(), Some("h1"));
    assert_eq!(items[0].description.as_deref(), Some("d2"));
    assert_eq!(items[0].created_at, 120);
    assert_eq!(items[0].updated_at, 200);
}

#[test]
fn delete_item_removes_only_that_item() {
    let mut db = Database::new();
    db.create_quote("alpha".to_string(), "q1".to_string(), 100);
    db.create_item("q1", no_fields(), "i1".to_string(), 120);
    db.create_item("q1", no_fields(), "i2".to_string(), 130);
    db.delete_item("i1");
    let items = db.get_items("q1");
    assert_eq!(items.len(), 1);
    assert_eq!(items[0].id, "i2");
    db.delete_item("i1");
    assert_eq!(db.get_items("q1").len(), 1);
}

#[test]
fn best_match_excludes_disqualifying_skus() {
    let mut db = Database::new();
    db.add_flavor(flavor("a", 2, 4096, 100_000));
    db.add_flavor(flavor("b", 4, 8192, 50_000));
    db.add_flavor(flavor("c", 4, 16384, 200_000));
    let r = db.find_best_match(4, 8192);
    assert_eq!(r.len(), 2);
    assert_eq!(r[0].id, "b");
    assert_eq!(r[0].vcpus, 4);
    assert_eq!(r[0].ram_mb, 8192);
    assert_eq!(r[0].price_hourly, 50_000);
    assert_eq!(r[1].id, "c");
    assert_eq!(r[1].ram_mb, 16384);
    assert_eq!(r[1].price_hourly, 200_000);
}

#[test]
fn best_match_caps_results_at_five() {
    let mut db = Database::new();
    for i in 0..7u64 {
        db.add_flavor(flavor(&format!("f{}", i), 8, 8192, 1000 + i));
    }
    let r = db.find_best_match(4, 4096);
    assert_eq!(r.len(), 5);
    let prices: Vec<u64> = r.iter().map(|f| f.price_hourly).collect();
    assert_eq!(prices, vec![1000, 1001, 1002, 1003, 1004]);
}

#[test]
fn best_match_keeps_all_equally_priced_qualifiers() {
    let mut db = Database::new();
    db.add_flavor(flavor("a", 4, 8192, 500));
    db.add_flavor(flavor("b", 8, 8192, 500));
    let r = db.find_best_match(4, 4096);
    assert_eq!(r.len(), 2);
    assert_eq!(r[0].price_hourly, 500);
    assert_eq!(r[1].price_hourly, 500);
    let mut ids: Vec<&str> = r.iter().map(|f| f.id.as_str()).collect();
    ids.sort();
    assert_eq!(ids, vec!["a", "b"]);
}

#[test]
fn best_match_with_no_qualifier_is_empty() {
    let mut db = Database::new();
    db.add_flavor(flavor("a", 2, 4096, 100));
    let r = db.find_best_match(64, 4096);
    assert!(r.is_empty());
}

#[test]
fn flavors_sorted_by_vcpus_then_ram() {
    let mut db = Database::new();
    db.add_flavor(flavor("big", 8, 4096, 5));
    db.add_flavor(flavor("small", 2, 8192, 1));
    db.add_flavor(flavor("mid", 2, 2048, 2));
    let r = db.get_flavors();
    let ids: Vec<&str> = r.iter().map(|f| f.id.as_str()).collect();
    assert_eq!(ids, vec!["mid", "small", "big"]);
}

#[test]
fn disk_types_sorted_by_price() {
    let mut db = Database::new();
    db.add_disk_type(disk("slow", 7));
    db.add_disk_type(disk("fast", 30));
    db.add_disk_type(disk("cheap", 2));
    let r = db.get_disk_types();
    let ids: Vec<&str> = r.iter().map(|d| d.id.as_str()).collect();
    assert_eq!(ids, vec!["cheap", "slow", "fast"]);
}

#[test]
fn quotes_listed_most_recently_updated_first() {
    let mut db = Database::new();
    db.create_quote("a".to_string(), "q1".to_string(), 100);
    db.create_quote("b".to_string(), "q2".to_string(), 300);
    db.create_quote("c".to_string(), "q3".to_string(), 200);
    let r = db.get_quotes();
    let ids: Vec<&str> = r.iter().map(|q| q.id.as_str()).collect();
    assert_eq!(ids, vec!["q2", "q3", "q1"]);
}

#[test]
fn items_listed_oldest_first() {
    let mut db = Database::new();
    db.create_quote("a".to_string(), "q1".to_string(), 100);
    db.create_item("q1", no_fields(), "late".to_string(), 400);
    db.create_item("q1", no_fields(), "early".to_string(), 200);
    let items = db.get_items("q1");
    let ids: Vec<&str> = items.iter().map(|i| i.id.as_str()).collect();
    assert_eq!(ids, vec!["early", "late"]);
}

#[test]
fn item_round_trip_keeps_every_field() {
    let mut db = Database::new();
    db.create_quote("alpha".to_string(), "q1".to_string(), 100);
    let fields = CreateQuoteItem {
        flavor_id: Some("fl-1".to_string()),
        flavor_name: Some("Flavor One".to_string()),
        vcpus: Some(4),
        ram_mb: Some(8192),
        flavor_price: Some(50_000),
        disk_type_id: Some("dt-1".to_string()),
        disk_type_name: Some("Fast Disk".to_string()),
        disk_size_gb: Some(200),
        disk_price: Some(14_000),
        hostname: Some("web-01".to_string()),
        code_number: Some("C-42".to_string()),
        description: Some("primary web node".to_string()),
    };
    db.create_item("q1", fields, "i1".to_string(), 120);
    let items = db.get_items("q1");
    assert_eq!(items.len(), 1);
    let it = &items[0];
    assert_eq!(it.quote_id, "q1");
    assert_eq!(it.flavor_id.as_deref(), Some("fl-1"));
    assert_eq!(it.flavor_name.as_deref(), Some("Flavor One"));
    assert_eq!(it.vcpus, Some(4));
    assert_eq!(it.ram_mb, Some(8192));
    assert_eq!(it.flavor_price, Some(50_000));
    assert_eq!(it.disk_type_id.as_deref(), Some("dt-1"));
    assert_eq!(it.disk_type_name.as_deref(), Some("Fast Disk"));
    assert_eq!(it.disk_size_gb, Some(200));
    assert_eq!(it.disk_price, Some(14_000));
    assert_eq!(it.hostname.as_deref(), Some("web-01"));
    assert_eq!(it.code_number.as_deref(), Some("C-42"));
    assert_eq!(it.description.as_deref(), Some("primary web node"));
    assert_eq!(it.created_at, 120);
    assert_eq!(it.updated_at, 120);
}

#[test]
fn pagination_slices_and_counts() {
    let mut db = Database::new();
    for i in 0..12i64 {
        db.create_quote(format!("quote {}", i), format!("q{}", i), 100 + i);
    }
    let page2 = db.get_quotes_paginated(
        2,
        5,
        quotator::sort::QuoteSortKey::UpdatedAt,
        quotator::sort::SortOrder::Desc,
        None,
    );
    assert_eq!(page2.data.len(), 5);
    assert_eq!(page2.total, 12);
    assert_eq!(page2.total_pages, 3);
    assert_eq!(page2.page, 2);
    assert_eq!(page2.limit, 5);
    // updated_at descending: page 2 holds updated_at 106..=102
    let times: Vec<i64> = page2.data.iter().map(|q| q.updated_at).collect();
    assert_eq!(times, vec![106, 105, 104, 103, 102]);
    let page3 = db.get_quotes_paginated(
        3,
        5,
        quotator::sort::QuoteSortKey::UpdatedAt,
        quotator::sort::SortOrder::Desc,
        None,
    );
    assert_eq!(page3.data.len(), 2);
    let page9 = db.get_quotes_paginated(
        9,
        5,
        quotator::sort::QuoteSortKey::UpdatedAt,
        quotator::sort::SortOrder::Desc,
        None,
    );
    assert!(page9.data.is_empty());
    assert_eq!(page9.total, 12);
}

#[test]
fn pagination_search_is_case_insensitive_substring() {
    let mut db = Database::new();
    db.create_quote("Production Cluster".to_string(), "q1".to_string(), 100);
    db.create_quote("staging".to_string(), "q2".to_string(), 200);
    db.create_quote("PRODUCT demo".to_string(), "q3".to_string(), 300);
    let r = db.get_quotes_paginated(
        1,
        10,
        quotator::sort::QuoteSortKey::UpdatedAt,
        quotator::sort::SortOrder::Desc,
        Some("product"),
    );
    assert_eq!(r.total, 2);
    let ids: Vec<&str> = r.data.iter().map(|q| q.id.as_str()).collect();
    assert_eq!(ids, vec!["q3", "q1"]);
    let none = db.get_quotes_paginated(
        1,
        10,
        quotator::sort::QuoteSortKey::UpdatedAt,
        quotator::sort::SortOrder::Desc,
        Some("absent"),
    );
    assert_eq!(none.total, 0);
    assert_eq!(none.total_pages, 0);
    assert!(none.data.is_empty());
}

#[test]
fn pagination_sort_by_created_ascending() {
    let mut db = Database::new();
    db.create_quote("a".to_string(), "q1".to_string(), 300);
    db.create_quote("b".to_string(), "q2".to_string(), 100);
    db.create_quote("c".to_string(), "q3".to_string(), 200);
    let r = db.get_quotes_paginated(
        1,
        10,
        quotator::sort::QuoteSortKey::CreatedAt,
        quotator::sort::SortOrder::Asc,
        None,
    );
    let ids: Vec<&str> = r.data.iter().map(|q| q.id.as_str()).collect();
    assert_eq!(ids, vec!["q2", "q3", "q1"]);
}
