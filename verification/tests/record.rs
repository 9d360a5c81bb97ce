use bson::{Bson, Document};
use storage_stat::record::{
    build_info_collection, coerce, get_int_field, get_int_field_or, FieldValue,
};

fn full_record() -> Document {
    let mut doc = Document::new();
    doc.insert("storageSize", 3000i32);
    doc.insert("totalIndexSize", 1000i32);
    doc.insert("size", 2500i32);
    doc.insert("count", 10i32);
    doc.insert("avgObjSize", 250i32);
    doc
}

#[test]
fn integers_are_taken_as_they_are() {
    let info = build_info_collection(&String::from("events"), full_record()).unwrap();
    assert_eq!(info.name, "events");
    assert_eq!(info.data_storage_size, 3000);
    assert_eq!(info.index_storage_size, 1000);
    assert_eq!(info.total_storage_size, 4000);
    assert_eq!(info.data_size, 2500);
    assert_eq!(info.count, 10);
    assert_eq!(info.avg_object_size, 250);
}

#[test]
fn doubles_lose_what_is_behind_the_point() {
    let mut doc = Document::new();
    doc.insert("storageSize", 3000.9f64);
    doc.insert("totalIndexSize", 1000.5f64);
    doc.insert("size", 2500.0f64);
    doc.insert("count", 10.99f64);
    doc.insert("avgObjSize", 250.25f64);
    let info = build_info_collection(&String::from("events"), doc).unwrap();
    assert_eq!(info.data_storage_size, 3000);
    assert_eq!(info.index_storage_size, 1000);
    assert_eq!(info.total_storage_size, 4000);
    assert_eq!(info.data_size, 2500);
    assert_eq!(info.count, 10);
    assert_eq!(info.avg_object_size, 250);
}

#[test]
fn total_is_the_sum_of_data_and_indexes() {
    let cases: [(f64, i32); 4] = [(0.0, 0), (1.5, 7), (4096.0, 4096), (123456.789, 2_000_000_000)];
    for (storage, index) in cases {
        let mut doc = full_record();
        doc.insert("storageSize", storage);
        doc.insert("totalIndexSize", index);
        let info = build_info_collection(&String::from("c"), doc).unwrap();
        assert_eq!(info.data_storage_size, storage as i64);
        assert_eq!(info.index_storage_size, index as i64);
        assert_eq!(
            info.total_storage_size,
            info.data_storage_size as i128 + info.index_storage_size as i128
        );
    }
}

#[test]
fn total_of_two_huge_sizes_is_exact() {
    let mut doc = full_record();
    doc.insert("storageSize", 9.0e18f64);
    doc.insert("totalIndexSize", 9.0e18f64);
    let info = build_info_collection(&String::from("c"), doc).unwrap();
    assert_eq!(info.data_storage_size, 9_000_000_000_000_000_000);
    assert_eq!(info.total_storage_size, 18_000_000_000_000_000_000i128);
}

#[test]
fn record_without_count_gives_no_figures() {
    let mut doc = full_record();
    doc.remove("count");
    let reason = build_info_collection(&String::from("events"), doc).err().unwrap();
    assert_eq!(reason, "Field count does not exist");
}

#[test]
fn each_required_field_is_required() {
    for name in ["storageSize", "totalIndexSize", "size", "count"] {
        let mut doc = full_record();
        doc.remove(name);
        let reason = build_info_collection(&String::from("events"), doc).err().unwrap();
        assert_eq!(reason, format!("Field {} does not exist", name));
    }
}

#[test]
fn record_without_average_has_an_average_of_zero() {
    let mut doc = full_record();
    doc.remove("avgObjSize");
    let info = build_info_collection(&String::from("events"), doc).unwrap();
    assert_eq!(info.avg_object_size, 0);
    assert_eq!(info.data_storage_size, 3000);
    assert_eq!(info.index_storage_size, 1000);
    assert_eq!(info.total_storage_size, 4000);
    assert_eq!(info.data_size, 2500);
    assert_eq!(info.count, 10);
}

#[test]
fn value_of_another_kind_is_refused_with_its_text() {
    let mut doc = full_record();
    doc.insert("size", "big");
    let reason = build_info_collection(&String::from("events"), doc).err().unwrap();
    assert_eq!(reason, "Field name has unexpected type: String(\"big\")");
}

#[test]
fn long_integer_is_no_number_here() {
    let mut doc = full_record();
    doc.insert("count", 5i64);
    let reason = build_info_collection(&String::from("events"), doc).err().unwrap();
    assert_eq!(reason, "Field name has unexpected type: Int64(5)");
}

#[test]
fn average_of_another_kind_is_refused() {
    let mut doc = full_record();
    doc.insert("avgObjSize", Bson::Null);
    let reason = build_info_collection(&String::from("events"), doc).err().unwrap();
    assert_eq!(reason, "Field name has unexpected type: null");
}

#[test]
fn required_field_is_shown_with_its_kind_and_the_average_plainly() {
    let mut doc = full_record();
    doc.insert("count", 5i64);
    let reason = build_info_collection(&String::from("events"), doc).err().unwrap();
    assert_eq!(reason, "Field name has unexpected type: Int64(5)");
    let mut doc = full_record();
    doc.insert("avgObjSize", 5i64);
    let reason = build_info_collection(&String::from("events"), doc).err().unwrap();
    assert_eq!(reason, "Field name has unexpected type: 5");
}

#[test]
fn first_field_that_cannot_be_read_gives_the_reason() {
    let mut doc = full_record();
    doc.remove("count");
    doc.insert("totalIndexSize", true);
    doc.remove("avgObjSize");
    let reason = build_info_collection(&String::from("events"), doc).err().unwrap();
    assert_eq!(reason, "Field name has unexpected type: Boolean(true)");
}

#[test]
fn get_int_field_reads_numbers() {
    let mut doc = Document::new();
    doc.insert("a", 7i32);
    doc.insert("b", -7.75f64);
    doc.insert("c", Bson::Null);
    assert_eq!(get_int_field(&doc, "a"), Ok(7));
    assert_eq!(get_int_field(&doc, "b"), Ok(-7));
    assert_eq!(
        get_int_field(&doc, "c"),
        Err(String::from("Field name has unexpected type: Null"))
    );
    assert_eq!(get_int_field(&doc, "d"), Err(String::from("Field d does not exist")));
}

#[test]
fn get_int_field_or_falls_back_only_where_the_field_is_lacking() {
    let mut doc = Document::new();
    doc.insert("a", 7i32);
    doc.insert("b", 2.5f64);
    doc.insert("c", "text");
    assert_eq!(get_int_field_or(&doc, "a", 99), Ok(7));
    assert_eq!(get_int_field_or(&doc, "b", 99), Ok(2));
    assert_eq!(
        get_int_field_or(&doc, "c", 99),
        Err(String::from("Field name has unexpected type: \"text\""))
    );
    assert_eq!(get_int_field_or(&doc, "d", 99), Ok(99));
    assert_eq!(get_int_field_or(&doc, "d", -1), Ok(-1));
}

#[test]
fn coerce_takes_each_kind_of_value() {
    assert_eq!(coerce(FieldValue::Int32(i32::MIN), false), Ok(i32::MIN as i64));
    assert_eq!(coerce(FieldValue::Int32(i32::MAX), true), Ok(i32::MAX as i64));
    assert_eq!(coerce(FieldValue::Double(1234.5f64.to_bits()), false), Ok(1234));
    assert_eq!(coerce(FieldValue::Double(f64::NAN.to_bits()), false), Ok(0));
    assert_eq!(coerce(FieldValue::Double(f64::INFINITY.to_bits()), true), Ok(i64::MAX));
    let other = || FieldValue::Other { debug: String::from("MinKey"), display: String::from("min") };
    assert_eq!(
        coerce(other(), false),
        Err(String::from("Field name has unexpected type: MinKey"))
    );
    assert_eq!(coerce(other(), true), Err(String::from("Field name has unexpected type: min")));
}
