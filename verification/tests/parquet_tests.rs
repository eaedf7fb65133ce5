//! End-to-end checks against real files built in memory with the parquet
//! crate: the footer model is filled from a real footer and summarized.

use std::sync::Arc;

use bytes::Bytes;
use parquet::basic::Type as ParquetType;
use parquet::data_type::Int32Type;
use parquet::file::metadata::{KeyValue, ParquetMetaData};
use parquet::file::properties::WriterProperties;
use parquet::file::reader::FileReader;
use parquet::file::serialized_reader::SerializedFileReader;
use parquet::file::writer::SerializedFileWriter;
use parquet::schema::parser::parse_message_type;

use pepa::listing::filter_parquet_entries;
use pepa::summary::{render_directory_summary, summarize_file, Schema};
use pepa::types::{DetailLevel, FooterMeta, FooterProperty, PhysicalType, SchemaColumn};

fn physical_type_of(t: ParquetType) -> PhysicalType {
    match t {
        ParquetType::BOOLEAN => PhysicalType::Boolean,
        ParquetType::INT32 => PhysicalType::Int32,
        ParquetType::INT64 => PhysicalType::Int64,
        ParquetType::INT96 => PhysicalType::Int96,
        ParquetType::FLOAT => PhysicalType::Float,
        ParquetType::DOUBLE => PhysicalType::Double,
        ParquetType::BYTE_ARRAY => PhysicalType::ByteArray,
        ParquetType::FIXED_LEN_BYTE_ARRAY => PhysicalType::FixedLenByteArray,
    }
}

fn footer_of(metadata: &ParquetMetaData) -> FooterMeta {
    let fm = metadata.file_metadata();
    FooterMeta {
        num_rows: fm.num_rows(),
        metadata_version: fm.version(),
        created_by: fm.created_by().map(|s| s.to_string()),
        properties: fm
            .key_value_metadata()
            .map(|kvs| {
                kvs.iter()
                    .map(|kv| FooterProperty { key: kv.key.clone(), value: kv.value.clone() })
                    .collect()
            })
            .unwrap_or_default(),
        columns: fm
            .schema_descr()
            .columns()
            .iter()
            .map(|c| SchemaColumn {
                name: c.name().to_string(),
                physical_type: physical_type_of(c.physical_type()),
            })
            .collect(),
    }
}

fn ten_row_int32_file() -> Vec<u8> {
    let schema = Arc::new(parse_message_type("message schema { REQUIRED INT32 value; }").unwrap());
    let props = Arc::new(
        WriterProperties::builder()
            .set_key_value_metadata(Some(vec![KeyValue::new(
                "pandas".to_string(),
                "{\"pandas_version\": \"2.2\", \"creator\": {\"library\": \"pandas\", \"version\": \"2.2\"}}"
                    .to_string(),
            )]))
            .build(),
    );
    let mut buf: Vec<u8> = Vec::new();
    let mut writer = SerializedFileWriter::new(&mut buf, schema, props).unwrap();
    let mut rg = writer.next_row_group().unwrap();
    let mut col = rg.next_column().unwrap().unwrap();
    col.typed::<Int32Type>()
        .write_batch(&[1, 2, 3, 4, 5, 6, 7, 8, 9, 10], None, None)
        .unwrap();
    col.close().unwrap();
    rg.close().unwrap();
    writer.close().unwrap();
    buf
}

#[test]
fn real_footer_yields_expected_shape_and_brief_schema() {
    let bytes = Bytes::from(ten_row_int32_file());
    let reader = SerializedFileReader::new(bytes).unwrap();
    let footer = footer_of(reader.metadata());
    let summary = summarize_file(&footer, DetailLevel::Brief, None);
    assert_eq!(summary.shape.num_rows, 10);
    assert_eq!(summary.shape.num_cols_leaf, 1);
    match &summary.schema {
        Schema::Brief(counts) => {
            assert_eq!(counts.len(), 1);
            assert_eq!(counts[0], ("INT32".to_string(), 1));
        },
        Schema::Full(_) => panic!("level 0 must select the brief schema"),
    }
    let pandas = summary.creator.pandas.expect("provenance expected");
    assert_eq!(pandas.version, "2.2");
    assert_eq!(pandas.library, "pandas-2.2");
}

#[test]
fn directory_with_one_matching_file_has_one_key() {
    // A directory listing holding a data file and an unrelated text file:
    // only the data file passes the filter and reaches the summary.
    let listing: Vec<String> = vec!["a.parquet".to_string(), "notes.txt".to_string()];
    let kept = filter_parquet_entries(&listing);
    assert_eq!(kept, vec!["a.parquet".to_string()]);

    let bytes = Bytes::from(ten_row_int32_file());
    let reader = SerializedFileReader::new(bytes).unwrap();
    let footer = footer_of(reader.metadata());
    let mut entries = Vec::new();
    for name in kept {
        entries.push((name, summarize_file(&footer, DetailLevel::Brief, None)));
    }
    let text = render_directory_summary(&entries, false);
    let v: serde_json::Value = serde_json::from_str(&text).unwrap();
    let obj = v.as_object().unwrap();
    assert_eq!(obj.len(), 1);
    assert!(obj.contains_key("a.parquet"));
    assert_eq!(v["a.parquet"]["shape"]["num_rows"], serde_json::Value::from(10));
    assert_eq!(v["a.parquet"]["shape"]["num_cols_leaf"], serde_json::Value::from(1u64));
    assert_eq!(
        v["a.parquet"]["schema"]["column_type_counts"]["INT32"],
        serde_json::Value::from(1u64)
    );
}
