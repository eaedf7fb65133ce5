//! Plain data model: the footer of a columnar file, its schema, per-column
//! statistics, the summary structures and the error taxonomy.

use vstd::prelude::*;

verus! {

/// The physical storage type of a leaf column: the on-disk primitive type,
/// independent of any logical annotation.
#[derive(Clone, Copy, PartialEq, Eq, Structural, Debug)]
pub enum PhysicalType {
    Boolean,
    Int32,
    Int64,
    Int96,
    Float,
    Double,
    ByteArray,
    FixedLenByteArray,
}

impl PhysicalType {
    /// The conventional upper-case name of the physical type.
    pub open spec fn spec_name(self) -> Seq<char> {
        match self {
            PhysicalType::Boolean => "BOOLEAN"@,
            PhysicalType::Int32 => "INT32"@,
            PhysicalType::Int64 => "INT64"@,
            PhysicalType::Int96 => "INT96"@,
            PhysicalType::Float => "FLOAT"@,
            PhysicalType::Double => "DOUBLE"@,
            PhysicalType::ByteArray => "BYTE_ARRAY"@,
            PhysicalType::FixedLenByteArray => "FIXED_LEN_BYTE_ARRAY"@,
        }
    }

    /// Returns the conventional upper-case name of the physical type.
    pub fn name(self) -> (r: &'static str)
        ensures
            r@ == self.spec_name(),
    {
        match self {
            PhysicalType::Boolean => "BOOLEAN",
            PhysicalType::Int32 => "INT32",
            PhysicalType::Int64 => "INT64",
            PhysicalType::Int96 => "INT96",
            PhysicalType::Float => "FLOAT",
            PhysicalType::Double => "DOUBLE",
            PhysicalType::ByteArray => "BYTE_ARRAY",
            PhysicalType::FixedLenByteArray => "FIXED_LEN_BYTE_ARRAY",
        }
    }
}

/// One leaf column of a file's flattened schema: its name and physical type.
pub struct SchemaColumn {
    pub name: String,
    pub physical_type: PhysicalType,
}

/// One key-value property from a footer's provenance block.
pub struct FooterProperty {
    pub key: String,
    pub value: Option<String>,
}

/// Everything the summarizer reads from the structural footer of one file,
/// as plain values: row count, format version, writer identification,
/// key-value provenance properties, and the flattened leaf schema.
pub struct FooterMeta {
    pub num_rows: i64,
    pub metadata_version: i32,
    pub created_by: Option<String>,
    pub properties: Vec<FooterProperty>,
    pub columns: Vec<SchemaColumn>,
}

impl FooterMeta {
    /// A well-formed footer has one entry per leaf column with names unique
    /// within the file.
    pub open spec fn wf(self) -> bool {
        forall|i: int, j: int|
            0 <= i < j < self.columns@.len() ==> (#[trigger] self.columns@[i]).name@ != (
            #[trigger] self.columns@[j]).name@
    }
}

/// The requested depth of schema reporting: counts per physical type, or
/// one entry per leaf column.
#[derive(Clone, Copy, PartialEq, Eq, Structural, Debug)]
pub enum DetailLevel {
    Brief,
    Full,
}

/// What a filesystem path turned out to be.
#[derive(Clone, Copy, PartialEq, Eq, Structural, Debug)]
pub enum PathKind {
    File,
    Directory,
    Other,
}

/// The error taxonomy of the summarizer.  Every failure names the phase it
/// arose in; a complete result and an error are mutually exclusive.
#[derive(Debug)]
pub enum SummaryError {
    /// The path exists but is neither a regular file nor a directory.
    PathKind { path: String },
    /// The file's footer is missing, corrupt, or unreadable.
    MetadataRead { path: String, cause: String },
    /// A data batch could not be read during the column-statistics scan.
    DataScan { path: String, cause: String },
    /// The requested detail level is outside the accepted set.
    Configuration { level: u8 },
}

} // verus!
