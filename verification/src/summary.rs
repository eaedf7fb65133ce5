//! Per-file and per-directory result composition, and the JSON documents
//! the results are rendered from.

use vstd::prelude::*;

use crate::json::{depth_members, depth_val, render_json, render_members, render_val, JsonVal, Members};
use crate::meta::{
    count_type, creator, distinct_types, is_creator_of, is_schema_brief_of, is_schema_full_of,
    is_shape_of, schema_brief, schema_full, schema_full_of, shape, Creator, Shape,
};
use crate::provenance::Pandas;
use crate::stats::ColumnStats;
use crate::types::{DetailLevel, FooterMeta};

verus! {

/// The schema block of a summary: counts per physical type (brief) or one
/// entry per leaf column (full), as selected by the detail level.
pub enum Schema {
    Brief(Vec<(String, u64)>),
    Full(Vec<(String, String)>),
}

/// The complete summary of one file: shape, creator, schema, and — when a
/// data scan was requested — per-column statistics.
pub struct FileSummary {
    pub shape: Shape,
    pub creator: Creator,
    pub schema: Schema,
    pub columnar_stats: Option<Vec<(String, ColumnStats)>>,
}

/// What a file summary must hold for a footer, a detail level, and an
/// optional statistics result.
pub open spec fn is_summary_of(
    s: FileSummary,
    footer: FooterMeta,
    level: DetailLevel,
    stats: Option<Seq<(String, ColumnStats)>>,
) -> bool {
    &&& is_shape_of(s.shape, footer)
    &&& is_creator_of(s.creator, footer)
    &&& match s.schema {
        Schema::Brief(b) => level == DetailLevel::Brief && is_schema_brief_of(
            b@.map_values(|e: (String, u64)| (e.0@, e.1)),
            footer.columns@,
        ),
        Schema::Full(f) => level == DetailLevel::Full && is_schema_full_of(f@, footer.columns@),
    }
    &&& match (s.columnar_stats, stats) {
        (Some(cs), Some(st)) => cs@ == st,
        (None, None) => true,
        _ => false,
    }
}

/// Combines the footer-derived blocks and the optional statistics into one
/// file summary.  The schema block follows the detail level; the statistics
/// are included exactly when a scan result is handed in.
pub fn summarize_file(
    footer: &FooterMeta,
    level: DetailLevel,
    stats: Option<Vec<(String, ColumnStats)>>,
) -> (s: FileSummary)
    ensures
        is_summary_of(
            s,
            *footer,
            level,
            match stats {
                Some(v) => Some(v@),
                None => None,
            },
        ),
{
    let schema = match level {
        DetailLevel::Brief => Schema::Brief(schema_brief(footer)),
        DetailLevel::Full => Schema::Full(schema_full(footer)),
    };
    FileSummary { shape: shape(footer), creator: creator(footer), schema, columnar_stats: stats }
}

/// The JSON document of a shape block.
pub open spec fn is_shape_json(j: JsonVal, s: Shape) -> bool {
    &&& j matches JsonVal::Obj(ms)
    &&& ms matches Members::Cons(k1, v1, r1)
    &&& k1@ == "num_rows"@
    &&& *v1 == JsonVal::Int(s.num_rows)
    &&& *r1 matches Members::Cons(k2, v2, r2)
    &&& k2@ == "num_cols_leaf"@
    &&& *v2 == JsonVal::UInt(s.num_cols_leaf as u64)
    &&& *r2 is Nil
}

/// The JSON document of an optional pandas provenance record: `null` when
/// absent.
pub open spec fn is_pandas_json(j: JsonVal, p: Option<Pandas>) -> bool {
    match p {
        None => j is Null,
        Some(pd) => {
            &&& j matches JsonVal::Obj(ms)
            &&& ms matches Members::Cons(k1, v1, r1)
            &&& k1@ == "version"@
            &&& *v1 matches JsonVal::Str(s1) && s1@ == pd.version@
            &&& *r1 matches Members::Cons(k2, v2, r2)
            &&& k2@ == "library"@
            &&& *v2 matches JsonVal::Str(s2) && s2@ == pd.library@
            &&& *r2 is Nil
        },
    }
}

/// The JSON document of a creator block.
pub open spec fn is_creator_json(j: JsonVal, c: Creator) -> bool {
    &&& j matches JsonVal::Obj(ms)
    &&& ms matches Members::Cons(k1, v1, r1)
    &&& k1@ == "created_by"@
    &&& *v1 matches JsonVal::Str(s1) && s1@ == c.created_by@
    &&& *r1 matches Members::Cons(k2, v2, r2)
    &&& k2@ == "metadata_version"@
    &&& *v2 == JsonVal::Int(c.metadata_version as i64)
    &&& *r2 matches Members::Cons(k3, v3, r3)
    &&& k3@ == "pandas"@
    &&& is_pandas_json(*v3, c.pandas)
    &&& *r3 is Nil
}

/// One member per `(name, count)` entry, a `u64` value each.
pub open spec fn is_count_entries_json(ms: Members, entries: Seq<(String, u64)>) -> bool
    decreases entries.len(),
{
    match ms {
        Members::Nil => entries.len() == 0,
        Members::Cons(k, v, rest) => entries.len() > 0 && k@ == entries[0].0@ && *v
            == JsonVal::UInt(entries[0].1) && is_count_entries_json(*rest, entries.skip(1)),
    }
}

/// One member per `(name, text)` entry, a string value each.
pub open spec fn is_text_entries_json(ms: Members, entries: Seq<(String, String)>) -> bool
    decreases entries.len(),
{
    match ms {
        Members::Nil => entries.len() == 0,
        Members::Cons(k, v, rest) => entries.len() > 0 && k@ == entries[0].0@ && (*v matches
            JsonVal::Str(s) && s@ == entries[0].1@) && is_text_entries_json(*rest, entries.skip(1)),
    }
}

/// The JSON document of one column's statistics.
pub open spec fn is_column_stats_json(j: JsonVal, c: ColumnStats) -> bool {
    &&& j matches JsonVal::Obj(ms)
    &&& ms matches Members::Cons(k1, v1, r1)
    &&& k1@ == "nulls"@
    &&& *v1 == JsonVal::UInt(c.nulls)
    &&& *r1 matches Members::Cons(k2, v2, r2)
    &&& k2@ == "non_nulls"@
    &&& *v2 == JsonVal::UInt(c.non_nulls)
    &&& *r2 is Nil
}

/// One member per column, each an object of that column's statistics.
pub open spec fn is_stats_entries_json(ms: Members, entries: Seq<(String, ColumnStats)>) -> bool
    decreases entries.len(),
{
    match ms {
        Members::Nil => entries.len() == 0,
        Members::Cons(k, v, rest) => entries.len() > 0 && k@ == entries[0].0@
            && is_column_stats_json(*v, entries[0].1) && is_stats_entries_json(
            *rest,
            entries.skip(1),
        ),
    }
}

/// The JSON document of a schema block: the brief form under
/// `column_type_counts`, the full form under `columns`.
pub open spec fn is_schema_json(j: JsonVal, sch: Schema) -> bool {
    match sch {
        Schema::Brief(b) => {
            &&& j matches JsonVal::Obj(ms)
            &&& ms matches Members::Cons(k, v, r)
            &&& k@ == "column_type_counts"@
            &&& (*v matches JsonVal::Obj(inner) && is_count_entries_json(inner, b@))
            &&& *r is Nil
        },
        Schema::Full(f) => {
            &&& j matches JsonVal::Obj(ms)
            &&& ms matches Members::Cons(k, v, r)
            &&& k@ == "columns"@
            &&& (*v matches JsonVal::Obj(inner) && is_text_entries_json(inner, f@))
            &&& *r is Nil
        },
    }
}

/// The JSON document of one file's summary: `shape`, `creator` and
/// `schema` blocks, and a `columnar_stats` block exactly when statistics
/// were collected.
pub open spec fn is_summary_json(j: JsonVal, s: FileSummary) -> bool {
    &&& j matches JsonVal::Obj(ms)
    &&& ms matches Members::Cons(k1, v1, r1)
    &&& k1@ == "shape"@
    &&& is_shape_json(*v1, s.shape)
    &&& *r1 matches Members::Cons(k2, v2, r2)
    &&& k2@ == "creator"@
    &&& is_creator_json(*v2, s.creator)
    &&& *r2 matches Members::Cons(k3, v3, r3)
    &&& k3@ == "schema"@
    &&& is_schema_json(*v3, s.schema)
    &&& match s.columnar_stats {
        None => *r3 is Nil,
        Some(cs) => *r3 matches Members::Cons(k4, v4, r4) && k4@ == "columnar_stats"@ && (*v4
            matches JsonVal::Obj(inner) && is_stats_entries_json(inner, cs@)) && *r4 is Nil,
    }
}

/// One member per directory entry: the file's name mapped to its summary.
pub open spec fn is_directory_entries_json(ms: Members, entries: Seq<(String, FileSummary)>) -> bool
    decreases entries.len(),
{
    match ms {
        Members::Nil => entries.len() == 0,
        Members::Cons(k, v, rest) => entries.len() > 0 && k@ == entries[0].0@ && is_summary_json(
            *v,
            entries[0].1,
        ) && is_directory_entries_json(*rest, entries.skip(1)),
    }
}

/// The JSON document of a directory summary: one member per summarized
/// file, keyed by file name, in listing order.
pub open spec fn is_directory_json(j: JsonVal, entries: Seq<(String, FileSummary)>) -> bool {
    &&& j matches JsonVal::Obj(ms)
    &&& is_directory_entries_json(ms, entries)
}

fn count_entries_members(entries: &Vec<(String, u64)>, i: usize) -> (ms: Members)
    requires
        i <= entries@.len(),
    ensures
        is_count_entries_json(ms, entries@.skip(i as int)),
        depth_members(ms) == 0,
    decreases entries@.len() - i,
{
    if i == entries.len() {
        proof {
            assert(entries@.skip(i as int).len() == 0);
        }
        Members::Nil
    } else {
        let e = &entries[i];
        let rest = count_entries_members(entries, i + 1);
        proof {
            assert(entries@.skip(i as int)[0] == entries@[i as int]);
            assert(entries@.skip(i as int).skip(1) =~= entries@.skip(i + 1));
        }
        let ms = Members::Cons(e.0.clone(), Box::new(JsonVal::UInt(e.1)), Box::new(rest));
        proof {
            assert(depth_members(ms) == 0) by {
                reveal_with_fuel(depth_members, 2);
                reveal_with_fuel(depth_val, 2);
            }
        }
        ms
    }
}

fn text_entries_members(entries: &Vec<(String, String)>, i: usize) -> (ms: Members)
    requires
        i <= entries@.len(),
    ensures
        is_text_entries_json(ms, entries@.skip(i as int)),
        depth_members(ms) == 0,
    decreases entries@.len() - i,
{
    if i == entries.len() {
        proof {
            assert(entries@.skip(i as int).len() == 0);
        }
        Members::Nil
    } else {
        let e = &entries[i];
        let rest = text_entries_members(entries, i + 1);
        proof {
            assert(entries@.skip(i as int)[0] == entries@[i as int]);
            assert(entries@.skip(i as int).skip(1) =~= entries@.skip(i + 1));
        }
        let ms = Members::Cons(e.0.clone(), Box::new(JsonVal::Str(e.1.clone())), Box::new(rest));
        proof {
            assert(depth_members(ms) == 0) by {
                reveal_with_fuel(depth_members, 2);
                reveal_with_fuel(depth_val, 2);
            }
        }
        ms
    }
}

fn column_stats_json(c: &ColumnStats) -> (j: JsonVal)
    ensures
        is_column_stats_json(j, *c),
        depth_val(j) == 1,
{
    let tail = Members::Cons(
        String::from_str("non_nulls"),
        Box::new(JsonVal::UInt(c.non_nulls)),
        Box::new(Members::Nil),
    );
    proof {
        assert(depth_members(tail) == 0) by {
            reveal_with_fuel(depth_members, 2);
            reveal_with_fuel(depth_val, 2);
        }
    }
    let inner = Members::Cons(String::from_str("nulls"), Box::new(JsonVal::UInt(c.nulls)), Box::new(tail));
    proof {
        assert(depth_members(inner) == 0) by {
            reveal_with_fuel(depth_members, 2);
            reveal_with_fuel(depth_val, 2);
        }
    }
    let j = JsonVal::Obj(inner);
    proof {
        assert(depth_val(j) == 1) by {
            reveal_with_fuel(depth_val, 2);
        }
    }
    j
}

fn pandas_json(p: &Option<Pandas>) -> (j: JsonVal)
    ensures
        is_pandas_json(j, *p),
        depth_val(j) <= 1,
{
    match p {
        None => JsonVal::Null,
        Some(pd) => {
            let tail = Members::Cons(
                String::from_str("library"),
                Box::new(JsonVal::Str(pd.library.clone())),
                Box::new(Members::Nil),
            );
            proof {
                assert(depth_members(tail) == 0) by {
            reveal_with_fuel(depth_members, 2);
            reveal_with_fuel(depth_val, 2);
        }
            }
            let inner = Members::Cons(
                String::from_str("version"),
                Box::new(JsonVal::Str(pd.version.clone())),
                Box::new(tail),
            );
            proof {
                assert(depth_members(inner) == 0) by {
            reveal_with_fuel(depth_members, 2);
            reveal_with_fuel(depth_val, 2);
        }
            }
            let j = JsonVal::Obj(inner);
            proof {
                assert(depth_val(j) == 1) by {
                    reveal_with_fuel(depth_val, 2);
                }
            }
            j
        },
    }
}

fn stats_entries_members(entries: &Vec<(String, ColumnStats)>, i: usize) -> (ms: Members)
    requires
        i <= entries@.len(),
    ensures
        is_stats_entries_json(ms, entries@.skip(i as int)),
        depth_members(ms) <= 1,
    decreases entries@.len() - i,
{
    if i == entries.len() {
        proof {
            assert(entries@.skip(i as int).len() == 0);
        }
        Members::Nil
    } else {
        let e = &entries[i];
        let cell = column_stats_json(&e.1);
        let rest = stats_entries_members(entries, i + 1);
        proof {
            assert(entries@.skip(i as int)[0] == entries@[i as int]);
            assert(entries@.skip(i as int).skip(1) =~= entries@.skip(i + 1));
        }
        let ms = Members::Cons(e.0.clone(), Box::new(cell), Box::new(rest));
        proof {
            assert(depth_members(ms) <= 1) by {
                reveal_with_fuel(depth_members, 2);
                reveal_with_fuel(depth_val, 2);
            }
        }
        ms
    }
}

fn shape_json(s: &Shape) -> (j: JsonVal)
    ensures
        is_shape_json(j, *s),
        depth_val(j) == 1,
{
    let j = JsonVal::Obj(
        Members::Cons(
            String::from_str("num_rows"),
            Box::new(JsonVal::Int(s.num_rows)),
            Box::new(
                Members::Cons(
                    String::from_str("num_cols_leaf"),
                    Box::new(JsonVal::UInt(s.num_cols_leaf as u64)),
                    Box::new(Members::Nil),
                ),
            ),
        ),
    );
    proof {
        assert(depth_val(j) == 1) by {
            reveal_with_fuel(depth_val, 3);
            reveal_with_fuel(depth_members, 3);
        }
    }
    j
}

fn creator_json(c: &Creator) -> (j: JsonVal)
    ensures
        is_creator_json(j, *c),
        depth_val(j) <= 2,
{
    let pandas = pandas_json(&c.pandas);
    let j = JsonVal::Obj(
        Members::Cons(
            String::from_str("created_by"),
            Box::new(JsonVal::Str(c.created_by.clone())),
            Box::new(
                Members::Cons(
                    String::from_str("metadata_version"),
                    Box::new(JsonVal::Int(c.metadata_version as i64)),
                    Box::new(
                        Members::Cons(
                            String::from_str("pandas"),
                            Box::new(pandas),
                            Box::new(Members::Nil),
                        ),
                    ),
                ),
            ),
        ),
    );
    proof {
        assert(depth_val(j) <= 2) by {
            reveal_with_fuel(depth_val, 5);
            reveal_with_fuel(depth_members, 5);
        }
    }
    j
}

fn schema_json(sch: &Schema) -> (j: JsonVal)
    ensures
        is_schema_json(j, *sch),
        depth_val(j) <= 2,
{
    match sch {
        Schema::Brief(b) => {
            let inner = count_entries_members(b, 0);
            proof {
                assert(b@.skip(0) =~= b@);
            }
            let j = JsonVal::Obj(
                Members::Cons(
                    String::from_str("column_type_counts"),
                    Box::new(JsonVal::Obj(inner)),
                    Box::new(Members::Nil),
                ),
            );
            proof {
                assert(depth_val(j) <= 2) by {
                    reveal_with_fuel(depth_val, 4);
                    reveal_with_fuel(depth_members, 4);
                }
            }
            j
        },
        Schema::Full(f) => {
            let inner = text_entries_members(f, 0);
            proof {
                assert(f@.skip(0) =~= f@);
            }
            let j = JsonVal::Obj(
                Members::Cons(
                    String::from_str("columns"),
                    Box::new(JsonVal::Obj(inner)),
                    Box::new(Members::Nil),
                ),
            );
            proof {
                assert(depth_val(j) <= 2) by {
                    reveal_with_fuel(depth_val, 4);
                    reveal_with_fuel(depth_members, 4);
                }
            }
            j
        },
    }
}

/// Builds the JSON document of one file's summary.
pub fn file_summary_json(s: &FileSummary) -> (j: JsonVal)
    ensures
        is_summary_json(j, *s),
        depth_val(j) <= 3,
{
    let tail = match &s.columnar_stats {
        None => Members::Nil,
        Some(cs) => {
            let inner = stats_entries_members(cs, 0);
            proof {
                assert(cs@.skip(0) =~= cs@);
            }
            let t = Members::Cons(
                String::from_str("columnar_stats"),
                Box::new(JsonVal::Obj(inner)),
                Box::new(Members::Nil),
            );
            proof {
                assert(depth_members(t) <= 2) by {
                    reveal_with_fuel(depth_val, 4);
                    reveal_with_fuel(depth_members, 4);
                }
            }
            t
        },
    };
    let j = JsonVal::Obj(
        Members::Cons(
            String::from_str("shape"),
            Box::new(shape_json(&s.shape)),
            Box::new(
                Members::Cons(
                    String::from_str("creator"),
                    Box::new(creator_json(&s.creator)),
                    Box::new(
                        Members::Cons(
                            String::from_str("schema"),
                            Box::new(schema_json(&s.schema)),
                            Box::new(tail),
                        ),
                    ),
                ),
            ),
        ),
    );
    proof {
        assert(depth_val(j) <= 3) by {
            reveal_with_fuel(depth_val, 6);
            reveal_with_fuel(depth_members, 6);
        }
    }
    j
}

fn directory_entries_members(entries: &Vec<(String, FileSummary)>, i: usize) -> (ms: Members)
    requires
        i <= entries@.len(),
    ensures
        is_directory_entries_json(ms, entries@.skip(i as int)),
        depth_members(ms) <= 3,
    decreases entries@.len() - i,
{
    if i == entries.len() {
        proof {
            assert(entries@.skip(i as int).len() == 0);
        }
        Members::Nil
    } else {
        let e = &entries[i];
        let cell = file_summary_json(&e.1);
        let rest = directory_entries_members(entries, i + 1);
        proof {
            assert(entries@.skip(i as int)[0] == entries@[i as int]);
            assert(entries@.skip(i as int).skip(1) =~= entries@.skip(i + 1));
        }
        let ms = Members::Cons(e.0.clone(), Box::new(cell), Box::new(rest));
        proof {
            assert(depth_members(ms) <= 3) by {
                reveal_with_fuel(depth_members, 2);
            }
        }
        ms
    }
}

/// Builds the JSON document of a directory summary.
pub fn directory_summary_json(entries: &Vec<(String, FileSummary)>) -> (j: JsonVal)
    ensures
        is_directory_json(j, entries@),
        depth_val(j) <= 4,
{
    let ms = directory_entries_members(entries, 0);
    proof {
        assert(entries@.skip(0) =~= entries@);
    }
    let j = JsonVal::Obj(ms);
    proof {
        assert(depth_val(j) <= 4) by {
            reveal_with_fuel(depth_val, 2);
        }
    }
    j
}

proof fn lemma_count_members_render(
    m1: Members,
    m2: Members,
    e1: Seq<(String, u64)>,
    e2: Seq<(String, u64)>,
    pretty: bool,
    ind: nat,
)
    requires
        is_count_entries_json(m1, e1),
        is_count_entries_json(m2, e2),
        e1.len() == e2.len(),
        forall|q: int| 0 <= q < e1.len() ==> (#[trigger] e1[q]).0@ == e2[q].0@ && e1[q].1 == e2[q].1,
    ensures
        render_members(m1, pretty, ind) == render_members(m2, pretty, ind),
    decreases e1.len(),
{
    match m1 {
        Members::Nil => {
            match m2 {
                Members::Nil => {},
                Members::Cons(_k, _v, _r) => {
                    assert(false);
                },
            }
        },
        Members::Cons(k1, v1, r1) => {
            match m2 {
                Members::Nil => {
                    assert(false);
                },
                Members::Cons(k2, v2, r2) => {
                    assert(k1@ == e1[0].0@ && k2@ == e2[0].0@);
                    assert(*v1 == JsonVal::UInt(e1[0].1) && *v2 == JsonVal::UInt(e2[0].1));
                    assert(*v1 == *v2);
                    assert forall|q: int| 0 <= q < e1.skip(1).len() implies (#[trigger] e1.skip(1)[
                        q
                    ]).0@ == e2.skip(1)[q].0@ && e1.skip(1)[q].1 == e2.skip(1)[q].1 by {
                        assert(e1.skip(1)[q] == e1[q + 1]);
                        assert(e2.skip(1)[q] == e2[q + 1]);
                    }
                    lemma_count_members_render(*r1, *r2, e1.skip(1), e2.skip(1), pretty, ind);
                    lemma_nil_alignment_count(*r1, e1.skip(1));
                    lemma_nil_alignment_count(*r2, e2.skip(1));
                },
            }
        },
    }
}

proof fn lemma_nil_alignment_count(ms: Members, entries: Seq<(String, u64)>)
    requires
        is_count_entries_json(ms, entries),
    ensures
        (ms is Nil) == (entries.len() == 0),
{
}

proof fn lemma_text_members_render(
    m1: Members,
    m2: Members,
    e1: Seq<(String, String)>,
    e2: Seq<(String, String)>,
    pretty: bool,
    ind: nat,
)
    requires
        is_text_entries_json(m1, e1),
        is_text_entries_json(m2, e2),
        e1.len() == e2.len(),
        forall|q: int|
            0 <= q < e1.len() ==> (#[trigger] e1[q]).0@ == e2[q].0@ && e1[q].1@ == e2[q].1@,
    ensures
        render_members(m1, pretty, ind) == render_members(m2, pretty, ind),
    decreases e1.len(),
{
    match m1 {
        Members::Nil => {
            match m2 {
                Members::Nil => {},
                Members::Cons(_k, _v, _r) => {
                    assert(false);
                },
            }
        },
        Members::Cons(k1, v1, r1) => {
            match m2 {
                Members::Nil => {
                    assert(false);
                },
                Members::Cons(k2, v2, r2) => {
                    assert(k1@ == e1[0].0@ && k2@ == e2[0].0@);
                    assert(render_val(*v1, pretty, ind) == render_val(*v2, pretty, ind));
                    assert forall|q: int| 0 <= q < e1.skip(1).len() implies (#[trigger] e1.skip(1)[
                        q
                    ]).0@ == e2.skip(1)[q].0@ && e1.skip(1)[q].1@ == e2.skip(1)[q].1@ by {
                        assert(e1.skip(1)[q] == e1[q + 1]);
                        assert(e2.skip(1)[q] == e2[q + 1]);
                    }
                    lemma_text_members_render(*r1, *r2, e1.skip(1), e2.skip(1), pretty, ind);
                    lemma_nil_alignment_text(*r1, e1.skip(1));
                    lemma_nil_alignment_text(*r2, e2.skip(1));
                },
            }
        },
    }
}

proof fn lemma_nil_alignment_text(ms: Members, entries: Seq<(String, String)>)
    requires
        is_text_entries_json(ms, entries),
    ensures
        (ms is Nil) == (entries.len() == 0),
{
}

proof fn lemma_column_stats_render(j1: JsonVal, j2: JsonVal, c: ColumnStats, pretty: bool, ind: nat)
    requires
        is_column_stats_json(j1, c),
        is_column_stats_json(j2, c),
    ensures
        render_val(j1, pretty, ind) == render_val(j2, pretty, ind),
{
    assert(render_val(j1, pretty, ind) == render_val(j2, pretty, ind)) by {
        reveal_with_fuel(render_val, 4);
        reveal_with_fuel(render_members, 5);
    }
}

proof fn lemma_stats_members_render(
    m1: Members,
    m2: Members,
    e1: Seq<(String, ColumnStats)>,
    e2: Seq<(String, ColumnStats)>,
    pretty: bool,
    ind: nat,
)
    requires
        is_stats_entries_json(m1, e1),
        is_stats_entries_json(m2, e2),
        e1.len() == e2.len(),
        forall|q: int| 0 <= q < e1.len() ==> (#[trigger] e1[q]).0@ == e2[q].0@ && e1[q].1 == e2[q].1,
    ensures
        render_members(m1, pretty, ind) == render_members(m2, pretty, ind),
    decreases e1.len(),
{
    match m1 {
        Members::Nil => {
            match m2 {
                Members::Nil => {},
                Members::Cons(_k, _v, _r) => {
                    assert(false);
                },
            }
        },
        Members::Cons(k1, v1, r1) => {
            match m2 {
                Members::Nil => {
                    assert(false);
                },
                Members::Cons(k2, v2, r2) => {
                    assert(k1@ == e1[0].0@ && k2@ == e2[0].0@);
                    lemma_column_stats_render(*v1, *v2, e1[0].1, pretty, ind);
                    assert forall|q: int| 0 <= q < e1.skip(1).len() implies (#[trigger] e1.skip(1)[
                        q
                    ]).0@ == e2.skip(1)[q].0@ && e1.skip(1)[q].1 == e2.skip(1)[q].1 by {
                        assert(e1.skip(1)[q] == e1[q + 1]);
                        assert(e2.skip(1)[q] == e2[q + 1]);
                    }
                    lemma_stats_members_render(*r1, *r2, e1.skip(1), e2.skip(1), pretty, ind);
                    lemma_nil_alignment_stats(*r1, e1.skip(1));
                    lemma_nil_alignment_stats(*r2, e2.skip(1));
                },
            }
        },
    }
}

proof fn lemma_nil_alignment_stats(ms: Members, entries: Seq<(String, ColumnStats)>)
    requires
        is_stats_entries_json(ms, entries),
    ensures
        (ms is Nil) == (entries.len() == 0),
{
}

proof fn lemma_shape_render(j1: JsonVal, j2: JsonVal, s: Shape, pretty: bool, ind: nat)
    requires
        is_shape_json(j1, s),
        is_shape_json(j2, s),
    ensures
        render_val(j1, pretty, ind) == render_val(j2, pretty, ind),
{
    assert(render_val(j1, pretty, ind) == render_val(j2, pretty, ind)) by {
        reveal_with_fuel(render_val, 4);
        reveal_with_fuel(render_members, 5);
    }
}

proof fn lemma_pandas_render(
    j1: JsonVal,
    j2: JsonVal,
    p1: Option<Pandas>,
    p2: Option<Pandas>,
    pretty: bool,
    ind: nat,
)
    requires
        is_pandas_json(j1, p1),
        is_pandas_json(j2, p2),
        match (p1, p2) {
            (None, None) => true,
            (Some(a), Some(b)) => a.version@ == b.version@ && a.library@ == b.library@,
            _ => false,
        },
    ensures
        render_val(j1, pretty, ind) == render_val(j2, pretty, ind),
{
    assert(render_val(j1, pretty, ind) == render_val(j2, pretty, ind)) by {
        reveal_with_fuel(render_val, 4);
        reveal_with_fuel(render_members, 5);
    }
}

proof fn lemma_creator_render(
    j1: JsonVal,
    j2: JsonVal,
    c1: Creator,
    c2: Creator,
    footer: FooterMeta,
    pretty: bool,
    ind: nat,
)
    requires
        is_creator_json(j1, c1),
        is_creator_json(j2, c2),
        is_creator_of(c1, footer),
        is_creator_of(c2, footer),
    ensures
        render_val(j1, pretty, ind) == render_val(j2, pretty, ind),
{
    match j1 {
        JsonVal::Obj(ms1) => {
            match j2 {
                JsonVal::Obj(ms2) => {
                    match ms1 {
                        Members::Cons(_k1a, _v1a, r1a) => {
                            match *r1a {
                                Members::Cons(_k1b, _v1b, r1b) => {
                                    match *r1b {
                                        Members::Cons(_k1c, v1c, _r1c) => {
                                            match ms2 {
                                                Members::Cons(_k2a, _v2a, r2a) => {
                                                    match *r2a {
                                                        Members::Cons(_k2b, _v2b, r2b) => {
                                                            match *r2b {
                                                                Members::Cons(_k2c, v2c, _r2c) => {
                                                                    lemma_pandas_render(
                                                                        *v1c,
                                                                        *v2c,
                                                                        c1.pandas,
                                                                        c2.pandas,
                                                                        pretty,
                                                                        if pretty {
                                                                            (ind + 2) as nat
                                                                        } else {
                                                                            ind
                                                                        },
                                                                    );
                                                                },
                                                                _ => {},
                                                            }
                                                        },
                                                        _ => {},
                                                    }
                                                },
                                                _ => {},
                                            }
                                        },
                                        _ => {},
                                    }
                                },
                                _ => {},
                            }
                        },
                        _ => {},
                    }
                },
                _ => {},
            }
        },
        _ => {},
    }
    assert(render_val(j1, pretty, ind) == render_val(j2, pretty, ind)) by {
        reveal_with_fuel(render_val, 4);
        reveal_with_fuel(render_members, 5);
    }
}

/// Law: the summarizer's JSON output is a function of what it reports and
/// of the chosen mode alone.  Any two summaries of the same footer at the
/// same detail level, with the same statistics, render to byte-identical
/// text — so summarizing an unchanged file twice yields identical output.
pub proof fn lemma_rendering_idempotent(
    footer: FooterMeta,
    level: DetailLevel,
    stats: Option<Seq<(String, ColumnStats)>>,
    s1: FileSummary,
    s2: FileSummary,
    j1: JsonVal,
    j2: JsonVal,
    pretty: bool,
)
    requires
        is_summary_of(s1, footer, level, stats),
        is_summary_of(s2, footer, level, stats),
        is_summary_json(j1, s1),
        is_summary_json(j2, s2),
    ensures
        render_val(j1, pretty, 0) == render_val(j2, pretty, 0),
{
    lemma_summary_members_render(j1, j2, s1, s2, footer, level, stats, pretty, 0);
}

#[verifier::rlimit(100)]
#[verifier::spinoff_prover]
proof fn lemma_schema_render(
    j1: JsonVal,
    j2: JsonVal,
    sch1: Schema,
    sch2: Schema,
    footer: FooterMeta,
    level: DetailLevel,
    pretty: bool,
    ind: nat,
)
    requires
        is_schema_json(j1, sch1),
        is_schema_json(j2, sch2),
        match sch1 {
            Schema::Brief(b) => level == DetailLevel::Brief && is_schema_brief_of(
                b@.map_values(|e: (String, u64)| (e.0@, e.1)),
                footer.columns@,
            ),
            Schema::Full(f) => level == DetailLevel::Full && is_schema_full_of(
                f@,
                footer.columns@,
            ),
        },
        match sch2 {
            Schema::Brief(b) => level == DetailLevel::Brief && is_schema_brief_of(
                b@.map_values(|e: (String, u64)| (e.0@, e.1)),
                footer.columns@,
            ),
            Schema::Full(f) => level == DetailLevel::Full && is_schema_full_of(
                f@,
                footer.columns@,
            ),
        },
    ensures
        render_val(j1, pretty, ind) == render_val(j2, pretty, ind),
{
    match (sch1, sch2) {
        (Schema::Brief(b1), Schema::Brief(b2)) => {
            let w1 = b1@.map_values(|e: (String, u64)| (e.0@, e.1));
            let w2 = b2@.map_values(|e: (String, u64)| (e.0@, e.1));
            assert(b1@.len() == w1.len() && b2@.len() == w2.len());
            assert forall|q: int| 0 <= q < b1@.len() implies (#[trigger] b1@[q]).0@ == b2@[q].0@
                && b1@[q].1 == b2@[q].1 by {
                assert(w1[q] == (b1@[q].0@, b1@[q].1));
                assert(w2[q] == (b2@[q].0@, b2@[q].1));
                assert(w1[q].0 == distinct_types(footer.columns@)[q].spec_name());
                assert(w2[q].0 == distinct_types(footer.columns@)[q].spec_name());
                assert(w1[q].1 == count_type(footer.columns@, distinct_types(footer.columns@)[q]));
                assert(w2[q].1 == count_type(footer.columns@, distinct_types(footer.columns@)[q]));
            }
            match (j1, j2) {
                (JsonVal::Obj(ms1), JsonVal::Obj(ms2)) => {
                    match (ms1, ms2) {
                        (Members::Cons(_ka, va, _ra), Members::Cons(_kb, vb, _rb)) => {
                            match (*va, *vb) {
                                (JsonVal::Obj(ia), JsonVal::Obj(ib)) => {
                                    lemma_count_members_render(
                                        ia,
                                        ib,
                                        b1@,
                                        b2@,
                                        pretty,
                                        if pretty {
                                            (ind + 4) as nat
                                        } else {
                                            ind
                                        },
                                    );
                                    lemma_nil_alignment_count(ia, b1@);
                                    lemma_nil_alignment_count(ib, b2@);
                                },
                                _ => {},
                            }
                        },
                        _ => {},
                    }
                },
                _ => {},
            }
        },
        (Schema::Full(f1), Schema::Full(f2)) => {
            let w1 = f1@.map_values(|e: (String, String)| (e.0@, e.1@));
            let w2 = f2@.map_values(|e: (String, String)| (e.0@, e.1@));
            assert(f1@.len() == w1.len() && f2@.len() == w2.len());
            assert(w1.len() == schema_full_of(footer.columns@).len());
            assert(w2.len() == schema_full_of(footer.columns@).len());
            assert forall|q: int| 0 <= q < f1@.len() implies (#[trigger] f1@[q]).0@ == f2@[q].0@
                && f1@[q].1@ == f2@[q].1@ by {
                assert(w1[q] == (f1@[q].0@, f1@[q].1@));
                assert(w2[q] == (f2@[q].0@, f2@[q].1@));
                assert(w1[q] == schema_full_of(footer.columns@)[q]);
                assert(w2[q] == schema_full_of(footer.columns@)[q]);
            }
            match (j1, j2) {
                (JsonVal::Obj(ms1), JsonVal::Obj(ms2)) => {
                    match (ms1, ms2) {
                        (Members::Cons(_ka, va, _ra), Members::Cons(_kb, vb, _rb)) => {
                            match (*va, *vb) {
                                (JsonVal::Obj(ia), JsonVal::Obj(ib)) => {
                                    lemma_text_members_render(
                                        ia,
                                        ib,
                                        f1@,
                                        f2@,
                                        pretty,
                                        if pretty {
                                            (ind + 4) as nat
                                        } else {
                                            ind
                                        },
                                    );
                                    lemma_nil_alignment_text(ia, f1@);
                                    lemma_nil_alignment_text(ib, f2@);
                                },
                                _ => {},
                            }
                        },
                        _ => {},
                    }
                },
                _ => {},
            }
        },
        _ => {
            assert(false);
        },
    }
    assert(render_val(j1, pretty, ind) == render_val(j2, pretty, ind)) by {
        reveal_with_fuel(render_val, 4);
        reveal_with_fuel(render_members, 5);
    }
}

#[verifier::rlimit(100)]
#[verifier::spinoff_prover]
proof fn lemma_summary_members_render(
    j1: JsonVal,
    j2: JsonVal,
    s1: FileSummary,
    s2: FileSummary,
    footer: FooterMeta,
    level: DetailLevel,
    stats: Option<Seq<(String, ColumnStats)>>,
    pretty: bool,
    ind: nat,
)
    requires
        is_summary_of(s1, footer, level, stats),
        is_summary_of(s2, footer, level, stats),
        is_summary_json(j1, s1),
        is_summary_json(j2, s2),
    ensures
        render_val(j1, pretty, ind) == render_val(j2, pretty, ind),
{
    match (j1, j2) {
        (JsonVal::Obj(ms1), JsonVal::Obj(ms2)) => {
            match (ms1, ms2) {
                (Members::Cons(_k1a, v1a, r1a), Members::Cons(_k2a, v2a, r2a)) => {
                    let inner = if pretty {
                        (ind + 2) as nat
                    } else {
                        ind
                    };
                    lemma_shape_render(*v1a, *v2a, s1.shape, pretty, inner);
                    assert(s1.shape.num_rows == s2.shape.num_rows && s1.shape.num_cols_leaf
                        == s2.shape.num_cols_leaf);
                    match (*r1a, *r2a) {
                        (Members::Cons(_k1b, v1b, r1b), Members::Cons(_k2b, v2b, r2b)) => {
                            lemma_creator_render(
                                *v1b,
                                *v2b,
                                s1.creator,
                                s2.creator,
                                footer,
                                pretty,
                                inner,
                            );
                            match (*r1b, *r2b) {
                                (Members::Cons(_k1c, v1c, r1c), Members::Cons(_k2c, v2c, r2c)) => {
                                    lemma_schema_render(
                                        *v1c,
                                        *v2c,
                                        s1.schema,
                                        s2.schema,
                                        footer,
                                        level,
                                        pretty,
                                        inner,
                                    );
                                    match stats {
                                        None => {},
                                        Some(st) => {
                                            match (*r1c, *r2c) {
                                                (
                                                    Members::Cons(_k1d, v1d, _r1d),
                                                    Members::Cons(_k2d, v2d, _r2d),
                                                ) => {
                                                    match (*v1d, *v2d) {
                                                        (JsonVal::Obj(ia), JsonVal::Obj(ib)) => {
                                                            let cs1 = s1.columnar_stats->Some_0;
                                                            let cs2 = s2.columnar_stats->Some_0;
                                                            assert(cs1@ == st && cs2@ == st);
                                                            lemma_stats_members_render(
                                                                ia,
                                                                ib,
                                                                cs1@,
                                                                cs2@,
                                                                pretty,
                                                                if pretty {
                                                                    (inner + 2) as nat
                                                                } else {
                                                                    ind
                                                                },
                                                            );
                                                            lemma_nil_alignment_stats(ia, cs1@);
                                                            lemma_nil_alignment_stats(ib, cs2@);
                                                            assert(render_val(
                                                                *v1d,
                                                                pretty,
                                                                inner,
                                                            ) == render_val(
                                                                *v2d,
                                                                pretty,
                                                                inner,
                                                            )) by {
                                                                reveal_with_fuel(render_val, 2);
                                                            }
                                                        },
                                                        _ => {},
                                                    }
                                                },
                                                _ => {},
                                            }
                                        },
                                    }
                                    assert(render_members(*r1c, pretty, inner) == render_members(
                                        *r2c,
                                        pretty,
                                        inner,
                                    )) by {
                                        reveal_with_fuel(render_members, 3);
                                    }
                                    assert(render_members(*r1b, pretty, inner) == render_members(
                                        *r2b,
                                        pretty,
                                        inner,
                                    )) by {
                                        reveal_with_fuel(render_members, 2);
                                    }
                                },
                                _ => {},
                            }
                            assert(render_members(*r1a, pretty, inner) == render_members(
                                *r2a,
                                pretty,
                                inner,
                            )) by {
                                reveal_with_fuel(render_members, 2);
                            }
                        },
                        _ => {},
                    }
                    assert(render_members(ms1, pretty, inner) == render_members(
                        ms2,
                        pretty,
                        inner,
                    )) by {
                        reveal_with_fuel(render_members, 2);
                    }
                },
                _ => {},
            }
        },
        _ => {},
    }
    assert(render_val(j1, pretty, ind) == render_val(j2, pretty, ind)) by {
        reveal_with_fuel(render_val, 2);
        reveal_with_fuel(render_members, 2);
    }
}

/// Renders one file's summary as JSON text, pretty or compact.
pub fn render_file_summary(s: &FileSummary, pretty: bool) -> (r: String)
    ensures
        exists|j: JsonVal|
            #[trigger] is_summary_json(j, *s) && r@ == render_val(j, pretty, 0),
{
    let j = file_summary_json(s);
    let r = render_json(&j, pretty);
    proof {
        assert(is_summary_json(j, *s) && r@ == render_val(j, pretty, 0));
    }
    r
}

/// Renders a directory summary as JSON text, pretty or compact.
pub fn render_directory_summary(entries: &Vec<(String, FileSummary)>, pretty: bool) -> (r: String)
    ensures
        exists|j: JsonVal|
            #[trigger] is_directory_json(j, entries@) && r@ == render_val(j, pretty, 0),
{
    let j = directory_summary_json(entries);
    let r = render_json(&j, pretty);
    proof {
        assert(is_directory_json(j, entries@) && r@ == render_val(j, pretty, 0));
    }
    r
}

} // verus!
