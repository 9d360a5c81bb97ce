use storage_stat::record::InfoCollection;
use storage_stat::render::{render_collection, render_database, render_failure, render_report};
use storage_stat::report::{qualified_name, CollectionFailure, InfoDatabase, Report};

fn collection(name: &str, data: i64, index: i64, size: i64, count: i64, avg: i64) -> InfoCollection {
    InfoCollection {
        name: String::from(name),
        total_storage_size: data as i128 + index as i128,
        data_storage_size: data,
        index_storage_size: index,
        data_size: size,
        count,
        avg_object_size: avg,
    }
}

fn database(name: &str, total: i128, collections: Vec<InfoCollection>) -> InfoDatabase {
    InfoDatabase {
        name: String::from(name),
        total_storage_size: total,
        data_storage_size: collections.iter().map(|c| c.data_storage_size as i128).sum(),
        index_storage_size: collections.iter().map(|c| c.index_storage_size as i128).sum(),
        collections,
    }
}

#[test]
fn line_of_a_database() {
    let db = database("shop", 5000, vec![collection("orders", 3000, 1000, 2500, 10, 250)]);
    assert_eq!(render_database(&db), "[shop: 5 KB = 3 KB + 1000 b]");
}

#[test]
fn line_of_a_database_beyond_a_terabyte() {
    let db = InfoDatabase {
        name: String::from("lake"),
        total_storage_size: 18_000_000_000_000_000_000,
        collections: Vec::new(),
        data_storage_size: 1_250_000_000_000,
        index_storage_size: 0,
    };
    assert_eq!(render_database(&db), "[lake: 18000000.0 TB = 1.2 TB + 0 b]");
}

#[test]
fn line_of_a_collection() {
    let c = collection("orders", 3000, 1000, 2500, 2500, 250);
    assert_eq!(
        render_collection(&c),
        " - orders: 4 KB = 3 KB + 1000 b / data: 2 KB / items: 3K / object: 250 b"
    );
}

#[test]
fn line_of_a_failure() {
    let failure = CollectionFailure {
        qualified_name: qualified_name("shop", "carts"),
        reason: String::from("Field count does not exist"),
    };
    assert_eq!(failure.qualified_name, "shop.carts");
    assert_eq!(render_failure(&failure), " - shop.carts: Field count does not exist");
}

#[test]
fn report_without_failures_has_no_heading() {
    let report = Report {
        databases: vec![
            database(
                "b",
                9000,
                vec![
                    collection("x", 2_000_000, 0, 1_500_000, 1_000_001, 2),
                    collection("y", 10, 5, 8, 4, 2),
                ],
            ),
            database("a", 5000, Vec::new()),
        ],
        failed: Vec::new(),
    };
    assert_eq!(
        render_report(&report),
        vec![
            "[b: 9 KB = 2 MB + 5 b]",
            " - x: 2 MB = 2 MB + 0 b / data: 2 MB / items: 1M / object: 2 b",
            " - y: 15 b = 10 b + 5 b / data: 8 b / items: 4 / object: 2 b",
            "[a: 5 KB = 0 b + 0 b]",
        ]
    );
}

#[test]
fn failures_come_last_under_their_heading() {
    let report = Report {
        databases: vec![database("a", 1, Vec::new())],
        failed: vec![
            CollectionFailure {
                qualified_name: String::from("a.x"),
                reason: String::from("Field size does not exist"),
            },
            CollectionFailure {
                qualified_name: String::from("a.y"),
                reason: String::from("Field name has unexpected type: Null"),
            },
        ],
    };
    assert_eq!(
        render_report(&report),
        vec![
            "[a: 1 b = 0 b + 0 b]",
            "Failed to process collections:",
            " - a.x: Field size does not exist",
            " - a.y: Field name has unexpected type: Null",
        ]
    );
}

#[test]
fn empty_report_has_no_lines() {
    let report = Report { databases: Vec::new(), failed: Vec::new() };
    assert!(render_report(&report).is_empty());
}
