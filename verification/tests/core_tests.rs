use pepa::listing::{classify_path, filter_parquet_entries, has_parquet_extension, validate_level};
use pepa::meta::{creator, schema_brief, schema_full, shape};
use pepa::provenance::{pandas_from_parts, parse_pandas};
use pepa::stats::{accumulate, Batch, BatchColumn};
use pepa::types::{DetailLevel, FooterMeta, FooterProperty, PathKind, PhysicalType, SchemaColumn, SummaryError};

fn footer_three_columns() -> FooterMeta {
    FooterMeta {
        num_rows: 42,
        metadata_version: 2,
        created_by: Some("writer-x".to_string()),
        properties: vec![],
        columns: vec![
            SchemaColumn { name: "a".to_string(), physical_type: PhysicalType::Int32 },
            SchemaColumn { name: "b".to_string(), physical_type: PhysicalType::Int64 },
            SchemaColumn { name: "c".to_string(), physical_type: PhysicalType::Int32 },
        ],
    }
}

#[test]
fn shape_reports_rows_and_leaf_columns() {
    let s = shape(&footer_three_columns());
    assert_eq!(s.num_rows, 42);
    assert_eq!(s.num_cols_leaf, 3);
}

#[test]
fn full_schema_has_one_entry_per_leaf_column() {
    let f = schema_full(&footer_three_columns());
    assert_eq!(f.len(), 3);
    assert_eq!(f[0], ("a".to_string(), "INT32".to_string()));
    assert_eq!(f[1], ("b".to_string(), "INT64".to_string()));
    assert_eq!(f[2], ("c".to_string(), "INT32".to_string()));
}

#[test]
fn brief_schema_counts_sum_to_leaf_column_count() {
    let footer = footer_three_columns();
    let b = schema_brief(&footer);
    assert_eq!(b.len(), 2);
    assert_eq!(b[0], ("INT32".to_string(), 2));
    assert_eq!(b[1], ("INT64".to_string(), 1));
    let total: u64 = b.iter().map(|e| e.1).sum();
    assert_eq!(total, shape(&footer).num_cols_leaf as u64);
}

#[test]
fn creator_defaults_to_unknown_writer() {
    let mut footer = footer_three_columns();
    footer.created_by = None;
    let c = creator(&footer);
    assert_eq!(c.created_by, "unknown");
    assert_eq!(c.metadata_version, 2);
    assert!(c.pandas.is_none());
}

#[test]
fn creator_takes_writer_string_verbatim() {
    let c = creator(&footer_three_columns());
    assert_eq!(c.created_by, "writer-x");
}

#[test]
fn well_formed_provenance_is_parsed() {
    let doc = "{\"pandas_version\": \"2.1.0\", \"creator\": {\"library\": \"pandas\", \"version\": \"2.1.0\"}}";
    let p = parse_pandas(doc).expect("provenance expected");
    assert_eq!(p.version, "2.1.0");
    assert_eq!(p.library, "pandas-2.1.0");
}

#[test]
fn malformed_provenance_yields_no_pandas_field() {
    // Missing pandas_version.
    assert!(parse_pandas("{\"creator\": {\"library\": \"pandas\", \"version\": \"2\"}}").is_none());
    // Wrong type.
    assert!(parse_pandas("{\"pandas_version\": 5, \"creator\": {\"library\": \"l\", \"version\": \"v\"}}").is_none());
    // Not JSON at all.
    assert!(parse_pandas("not json {{{").is_none());
    // JSON but not an object.
    assert!(parse_pandas("[1, 2, 3]").is_none());
}

#[test]
fn malformed_provenance_does_not_fail_the_summary() {
    let mut footer = footer_three_columns();
    footer.properties = vec![FooterProperty {
        key: "pandas".to_string(),
        value: Some("{\"pandas_version\": 5}".to_string()),
    }];
    let c = creator(&footer);
    assert!(c.pandas.is_none());
    assert_eq!(c.created_by, "writer-x");
}

#[test]
fn first_pandas_property_wins() {
    let mut footer = footer_three_columns();
    footer.properties = vec![
        FooterProperty { key: "other".to_string(), value: Some("x".to_string()) },
        FooterProperty {
            key: "pandas".to_string(),
            value: Some(
                "{\"pandas_version\": \"1.0\", \"creator\": {\"library\": \"pd\", \"version\": \"9\"}}"
                    .to_string(),
            ),
        },
    ];
    let c = creator(&footer);
    let p = c.pandas.expect("provenance expected");
    assert_eq!(p.version, "1.0");
    assert_eq!(p.library, "pd-9");
}

#[test]
fn pandas_from_parts_needs_all_three_fields() {
    assert!(pandas_from_parts(None, Some("l".to_string()), Some("v".to_string())).is_none());
    assert!(pandas_from_parts(Some("p".to_string()), None, Some("v".to_string())).is_none());
    assert!(pandas_from_parts(Some("p".to_string()), Some("l".to_string()), None).is_none());
    let p = pandas_from_parts(
        Some("p".to_string()),
        Some("l".to_string()),
        Some("v".to_string()),
    )
    .expect("record expected");
    assert_eq!(p.version, "p");
    assert_eq!(p.library, "l-v");
}

fn batch(cols: Vec<(&str, usize, usize)>) -> Batch {
    let num_rows = cols.first().map(|c| c.1).unwrap_or(0);
    Batch {
        num_rows,
        columns: cols
            .into_iter()
            .map(|(n, len, nulls)| BatchColumn {
                name: n.to_string(),
                len,
                null_count: nulls,
            })
            .collect(),
    }
}

#[test]
fn accumulator_sums_across_batches() {
    let batches = vec![
        batch(vec![("x", 5, 2), ("y", 5, 0)]),
        batch(vec![("x", 5, 1), ("y", 5, 5)]),
    ];
    let totals = accumulate(&batches).expect("totals expected");
    assert_eq!(totals.len(), 2);
    assert_eq!(totals[0].0, "x");
    assert_eq!(totals[0].1.nulls, 3);
    assert_eq!(totals[0].1.non_nulls, 7);
    assert_eq!(totals[1].0, "y");
    assert_eq!(totals[1].1.nulls, 5);
    assert_eq!(totals[1].1.non_nulls, 5);
    // Each column's counts sum to the total row count of the file.
    for (_, stats) in &totals {
        assert_eq!(stats.nulls + stats.non_nulls, 10);
    }
}

#[test]
fn accumulator_initializes_late_columns_at_zero() {
    let batches = vec![batch(vec![("x", 4, 1)]), batch(vec![("x", 4, 0), ("z", 4, 4)])];
    let totals = accumulate(&batches).expect("totals expected");
    assert_eq!(totals.len(), 2);
    assert_eq!(totals[0].0, "x");
    assert_eq!(totals[0].1.nulls, 1);
    assert_eq!(totals[0].1.non_nulls, 7);
    assert_eq!(totals[1].0, "z");
    assert_eq!(totals[1].1.nulls, 4);
    assert_eq!(totals[1].1.non_nulls, 0);
}

#[test]
fn accumulator_of_no_batches_is_empty() {
    let totals = accumulate(&vec![]).expect("totals expected");
    assert!(totals.is_empty());
}

#[test]
fn accumulator_refuses_overflowing_totals() {
    let batches = vec![batch(vec![("x", usize::MAX, usize::MAX)]), batch(vec![(
        "x",
        usize::MAX,
        usize::MAX,
    )])];
    assert!(accumulate(&batches).is_none());
}

#[test]
fn extension_filter_is_exact_and_case_sensitive() {
    assert!(has_parquet_extension("a.parquet"));
    assert!(has_parquet_extension("b.pq"));
    assert!(has_parquet_extension(".parquet"));
    assert!(!has_parquet_extension("notes.txt"));
    assert!(!has_parquet_extension("data.csv"));
    assert!(!has_parquet_extension("upper.PARQUET"));
    assert!(!has_parquet_extension("upper.PQ"));
    assert!(!has_parquet_extension("pq"));
    assert!(!has_parquet_extension(""));
    assert!(!has_parquet_extension("parquet"));
}

#[test]
fn extension_filter_handles_multibyte_names() {
    assert!(has_parquet_extension("d\u{e9}j\u{e0}.parquet"));
    assert!(has_parquet_extension("\u{65e5}\u{672c}.pq"));
    assert!(!has_parquet_extension("d\u{e9}j\u{e0}.parquex"));
    assert!(!has_parquet_extension("\u{65e5}\u{672c}"));
}

#[test]
fn directory_filter_keeps_matching_entries_in_order() {
    let names: Vec<String> = ["a.parquet", "notes.txt", "b.pq", "c.csv", "d.parquet"]
        .iter()
        .map(|s| s.to_string())
        .collect();
    let kept = filter_parquet_entries(&names);
    assert_eq!(kept, vec!["a.parquet".to_string(), "b.pq".to_string(), "d.parquet".to_string()]);
}

#[test]
fn unsupported_detail_level_is_a_configuration_error() {
    match validate_level(5) {
        Err(SummaryError::Configuration { level }) => assert_eq!(level, 5),
        other => panic!("expected a configuration error, got {:?}", other),
    }
    match validate_level(3) {
        Err(SummaryError::Configuration { level }) => assert_eq!(level, 3),
        other => panic!("expected a configuration error, got {:?}", other),
    }
}

#[test]
fn accepted_detail_levels_select_schema_depth() {
    assert_eq!(validate_level(0).unwrap(), DetailLevel::Brief);
    assert_eq!(validate_level(1).unwrap(), DetailLevel::Full);
    assert_eq!(validate_level(2).unwrap(), DetailLevel::Full);
}

#[test]
fn path_of_other_kind_is_a_path_kind_error() {
    match classify_path(PathKind::Other, "/broken/link") {
        Err(SummaryError::PathKind { path }) => assert_eq!(path, "/broken/link"),
        other => panic!("expected a path-kind error, got {:?}", other),
    }
    assert!(classify_path(PathKind::File, "/some/file").is_ok());
    assert!(classify_path(PathKind::Directory, "/some/dir").is_ok());
}
