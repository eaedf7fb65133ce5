use pepa::json::{render_json, JsonVal, Members};
use pepa::stats::{accumulate, Batch, BatchColumn};
use pepa::summary::{render_directory_summary, render_file_summary, summarize_file};
use pepa::types::{DetailLevel, FooterMeta, FooterProperty, PhysicalType, SchemaColumn};

fn footer() -> FooterMeta {
    FooterMeta {
        num_rows: -7,
        metadata_version: 1,
        created_by: None,
        properties: vec![FooterProperty {
            key: "pandas".to_string(),
            value: Some(
                "{\"pandas_version\": \"2.0\", \"creator\": {\"library\": \"pandas\", \"version\": \"2.0\"}}"
                    .to_string(),
            ),
        }],
        columns: vec![SchemaColumn {
            name: "v\"al\\ue\n".to_string(),
            physical_type: PhysicalType::Double,
        }],
    }
}

#[test]
fn compact_rendering_of_numbers_is_exact() {
    let j = JsonVal::Obj(Members::Cons(
        "n".to_string(),
        Box::new(JsonVal::Int(-1234567890123)),
        Box::new(Members::Cons(
            "z".to_string(),
            Box::new(JsonVal::Int(0)),
            Box::new(Members::Cons(
                "u".to_string(),
                Box::new(JsonVal::UInt(u64::MAX)),
                Box::new(Members::Nil),
            )),
        )),
    ));
    let s = render_json(&j, false);
    assert_eq!(s, "{\"n\":-1234567890123,\"z\":0,\"u\":18446744073709551615}");
}

#[test]
fn extreme_signed_values_render_exactly() {
    let j = JsonVal::Obj(Members::Cons(
        "min".to_string(),
        Box::new(JsonVal::Int(i64::MIN)),
        Box::new(Members::Cons(
            "max".to_string(),
            Box::new(JsonVal::Int(i64::MAX)),
            Box::new(Members::Nil),
        )),
    ));
    let s = render_json(&j, false);
    assert_eq!(s, "{\"min\":-9223372036854775808,\"max\":9223372036854775807}");
}

#[test]
fn pretty_rendering_indents_by_two_spaces() {
    let j = JsonVal::Obj(Members::Cons(
        "a".to_string(),
        Box::new(JsonVal::Obj(Members::Cons(
            "b".to_string(),
            Box::new(JsonVal::Null),
            Box::new(Members::Nil),
        ))),
        Box::new(Members::Nil),
    ));
    let s = render_json(&j, true);
    assert_eq!(s, "{\n  \"a\": {\n    \"b\": null\n  }\n}");
}

#[test]
fn empty_object_renders_as_braces() {
    let j = JsonVal::Obj(Members::Nil);
    assert_eq!(render_json(&j, false), "{}");
    assert_eq!(render_json(&j, true), "{}");
}

#[test]
fn string_escaping_survives_a_json_parser() {
    let tricky = "q\"b\\n\nr\rt\tz\u{8}\u{c}\u{1}end".to_string();
    let j = JsonVal::Obj(Members::Cons(
        "k".to_string(),
        Box::new(JsonVal::Str(tricky.clone())),
        Box::new(Members::Nil),
    ));
    let s = render_json(&j, false);
    let v: serde_json::Value = serde_json::from_str(&s).expect("rendered text must parse");
    assert_eq!(v["k"].as_str().unwrap(), tricky);
}

#[test]
fn summarizing_twice_yields_byte_identical_output() {
    let f = footer();
    let s1 = summarize_file(&f, DetailLevel::Full, None);
    let s2 = summarize_file(&f, DetailLevel::Full, None);
    assert_eq!(render_file_summary(&s1, true), render_file_summary(&s2, true));
    assert_eq!(render_file_summary(&s1, false), render_file_summary(&s2, false));
}

#[test]
fn compact_and_pretty_outputs_deserialize_equal() {
    let f = footer();
    let batches = vec![Batch {
        num_rows: 3,
        columns: vec![BatchColumn { name: "c".to_string(), len: 3, null_count: 1 }],
    }];
    let stats = accumulate(&batches).expect("totals expected");
    let s = summarize_file(&f, DetailLevel::Brief, Some(stats));
    let pretty = render_file_summary(&s, true);
    let compact = render_file_summary(&s, false);
    let vp: serde_json::Value = serde_json::from_str(&pretty).expect("pretty output must parse");
    let vc: serde_json::Value = serde_json::from_str(&compact).expect("compact output must parse");
    assert_eq!(vp, vc);
}

#[test]
fn file_summary_json_has_expected_fields() {
    let f = footer();
    let s = summarize_file(&f, DetailLevel::Full, None);
    let text = render_file_summary(&s, false);
    let v: serde_json::Value = serde_json::from_str(&text).expect("output must parse");
    assert_eq!(v["shape"]["num_rows"], serde_json::Value::from(-7));
    assert_eq!(v["shape"]["num_cols_leaf"], serde_json::Value::from(1u64));
    assert_eq!(v["creator"]["created_by"].as_str().unwrap(), "unknown");
    assert_eq!(v["creator"]["metadata_version"], serde_json::Value::from(1));
    assert_eq!(v["creator"]["pandas"]["version"].as_str().unwrap(), "2.0");
    assert_eq!(v["creator"]["pandas"]["library"].as_str().unwrap(), "pandas-2.0");
    assert_eq!(v["schema"]["columns"]["v\"al\\ue\n"].as_str().unwrap(), "DOUBLE");
    assert!(v.get("columnar_stats").is_none());
}

#[test]
fn columnar_stats_appear_when_requested() {
    let f = footer();
    let batches = vec![Batch {
        num_rows: 4,
        columns: vec![BatchColumn { name: "c".to_string(), len: 4, null_count: 3 }],
    }];
    let stats = accumulate(&batches).expect("totals expected");
    let s = summarize_file(&f, DetailLevel::Brief, Some(stats));
    let text = render_file_summary(&s, false);
    let v: serde_json::Value = serde_json::from_str(&text).expect("output must parse");
    assert_eq!(v["columnar_stats"]["c"]["nulls"], serde_json::Value::from(3u64));
    assert_eq!(v["columnar_stats"]["c"]["non_nulls"], serde_json::Value::from(1u64));
    assert_eq!(v["schema"]["column_type_counts"]["DOUBLE"], serde_json::Value::from(1u64));
}

#[test]
fn directory_summary_keys_are_file_names() {
    let f = footer();
    let s1 = summarize_file(&f, DetailLevel::Brief, None);
    let s2 = summarize_file(&f, DetailLevel::Brief, None);
    let entries = vec![("a.parquet".to_string(), s1), ("b.pq".to_string(), s2)];
    let text = render_directory_summary(&entries, false);
    let v: serde_json::Value = serde_json::from_str(&text).expect("output must parse");
    let obj = v.as_object().unwrap();
    assert_eq!(obj.len(), 2);
    assert!(obj.contains_key("a.parquet"));
    assert!(obj.contains_key("b.pq"));
    assert!(v["a.parquet"]["shape"]["num_cols_leaf"] == serde_json::Value::from(1u64));
}

#[test]
fn empty_directory_summary_renders_as_empty_object() {
    let entries: Vec<(String, pepa::summary::FileSummary)> = vec![];
    assert_eq!(render_directory_summary(&entries, false), "{}");
    assert_eq!(render_directory_summary(&entries, true), "{}");
}
