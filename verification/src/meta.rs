//! Shape, creator and schema reporting derived from a file's footer.

use vstd::prelude::*;

use crate::provenance::{is_pandas_of, pandas_of, parse_pandas, Pandas};
use crate::types::{FooterMeta, FooterProperty, PhysicalType, SchemaColumn};

verus! {

/// The shape of one file: total row count and number of leaf columns.
pub struct Shape {
    pub num_rows: i64,
    pub num_cols_leaf: usize,
}

/// Writer identification from the footer: the writer string (or `"unknown"`),
/// the footer format version, and the optional pandas provenance record.
pub struct Creator {
    pub created_by: String,
    pub metadata_version: i32,
    pub pandas: Option<Pandas>,
}

/// What the reported shape of a footer must be.
pub open spec fn is_shape_of(s: Shape, footer: FooterMeta) -> bool {
    &&& s.num_rows == footer.num_rows
    &&& s.num_cols_leaf == footer.columns@.len()
}

/// Reports the shape of the file: its row count and leaf column count.
pub fn shape(footer: &FooterMeta) -> (r: Shape)
    ensures
        is_shape_of(r, *footer),
{
    Shape { num_rows: footer.num_rows, num_cols_leaf: footer.columns.len() }
}

/// The writer string the summary reports: the footer's, or `"unknown"`.
pub open spec fn created_by_of(footer: FooterMeta) -> Seq<char> {
    match footer.created_by {
        Some(s) => s@,
        None => "unknown"@,
    }
}

/// The value of the first footer property whose key is `"pandas"`, if that
/// property exists and carries a value.
pub open spec fn first_pandas_value(props: Seq<FooterProperty>) -> Option<Seq<char>>
    decreases props.len(),
{
    if props.len() == 0 {
        None::<Seq<char>>
    } else if props[0].key@ == "pandas"@ {
        match props[0].value {
            Some(v) => Some(v@),
            None => None,
        }
    } else {
        first_pandas_value(props.skip(1))
    }
}

/// The provenance record a footer yields: the parse of the first `"pandas"`
/// property's value, or nothing when no such property carries a value.
pub open spec fn footer_pandas_of(footer: FooterMeta) -> Option<(Seq<char>, Seq<char>)> {
    match first_pandas_value(footer.properties@) {
        Some(doc) => pandas_of(doc),
        None => None,
    }
}

/// What the reported creator of a footer must be.
pub open spec fn is_creator_of(c: Creator, footer: FooterMeta) -> bool {
    &&& c.created_by@ == created_by_of(footer)
    &&& c.metadata_version == footer.metadata_version
    &&& is_pandas_of(c.pandas, footer_pandas_of(footer))
}

proof fn lemma_first_pandas_skip(props: Seq<FooterProperty>, i: int)
    requires
        0 <= i <= props.len(),
        forall|j: int| 0 <= j < i ==> props[j].key@ != "pandas"@,
    ensures
        first_pandas_value(props) == first_pandas_value(props.skip(i)),
    decreases i,
{
    if i == 0 {
        assert(props.skip(0) =~= props);
    } else {
        lemma_first_pandas_skip(props.skip(1), i - 1);
        assert(props.skip(1).skip(i - 1) =~= props.skip(i));
    }
}

/// Finds the value of the first `"pandas"` footer property and parses it as
/// a provenance record; a missing property, an absent value, or a document
/// of the wrong shape all yield `None` rather than an error.
pub fn pandas_provenance(footer: &FooterMeta) -> (r: Option<Pandas>)
    ensures
        is_pandas_of(r, footer_pandas_of(*footer)),
{
    let pandas_key = String::from_str("pandas");
    let n = footer.properties.len();
    let mut i: usize = 0;
    while i < n
        invariant
            0 <= i <= n,
            n == footer.properties@.len(),
            pandas_key@ == "pandas"@,
            forall|j: int| 0 <= j < i ==> footer.properties@[j].key@ != "pandas"@,
        decreases n - i,
    {
        let prop = &footer.properties[i];
        if prop.key == pandas_key {
            proof {
                lemma_first_pandas_skip(footer.properties@, i as int);
            }
            match &prop.value {
                Some(doc) => {
                    return parse_pandas(doc.as_str());
                },
                None => {
                    return None;
                },
            }
        }
        i += 1;
    }
    proof {
        lemma_first_pandas_skip(footer.properties@, n as int);
    }
    None
}

/// Reports the creator block of the file: the writer string taken verbatim
/// from the footer (defaulting to `"unknown"` when absent), the footer's
/// format version, and the optional pandas provenance record.
pub fn creator(footer: &FooterMeta) -> (r: Creator)
    ensures
        is_creator_of(r, *footer),
{
    let created_by = match &footer.created_by {
        Some(s) => s.clone(),
        None => String::from_str("unknown"),
    };
    let pandas = pandas_provenance(footer);
    Creator { created_by, metadata_version: footer.metadata_version, pandas }
}

/// The full schema of a footer: every leaf column's name mapped to the name
/// of its physical type, in schema order.
pub open spec fn schema_full_of(cols: Seq<SchemaColumn>) -> Seq<(Seq<char>, Seq<char>)> {
    cols.map_values(|c: SchemaColumn| (c.name@, c.physical_type.spec_name()))
}

/// What a reported full schema must be.
pub open spec fn is_schema_full_of(r: Seq<(String, String)>, cols: Seq<SchemaColumn>) -> bool {
    r.map_values(|e: (String, String)| (e.0@, e.1@)) == schema_full_of(cols)
}

/// Reports the full schema: one `(column name, physical type name)` entry
/// per leaf column, in schema order.
pub fn schema_full(footer: &FooterMeta) -> (r: Vec<(String, String)>)
    ensures
        is_schema_full_of(r@, footer.columns@),
{
    let n = footer.columns.len();
    let mut out: Vec<(String, String)> = Vec::new();
    let mut i: usize = 0;
    while i < n
        invariant
            0 <= i <= n,
            n == footer.columns@.len(),
            out@.len() == i,
            forall|k: int| 0 <= k < i ==> (#[trigger] out@[k]).0@ == footer.columns@[k].name@,
            forall|k: int|
                0 <= k < i ==> (#[trigger] out@[k]).1@
                    == footer.columns@[k].physical_type.spec_name(),
        decreases n - i,
    {
        let c = &footer.columns[i];
        out.push((c.name.clone(), String::from_str(c.physical_type.name())));
        i += 1;
    }
    proof {
        assert(out@.map_values(|e: (String, String)| (e.0@, e.1@)) =~= schema_full_of(
            footer.columns@,
        ));
    }
    out
}

/// How many leaf columns of `cols` have physical type `t`.
pub open spec fn count_type(cols: Seq<SchemaColumn>, t: PhysicalType) -> int
    decreases cols.len(),
{
    if cols.len() == 0 {
        0
    } else {
        count_type(cols.drop_last(), t) + if cols.last().physical_type == t {
            1int
        } else {
            0int
        }
    }
}

/// The distinct physical types of `cols`, in order of first occurrence.
pub open spec fn distinct_types(cols: Seq<SchemaColumn>) -> Seq<PhysicalType>
    decreases cols.len(),
{
    if cols.len() == 0 {
        Seq::<PhysicalType>::empty()
    } else {
        let rest = distinct_types(cols.drop_last());
        if rest.contains(cols.last().physical_type) {
            rest
        } else {
            rest.push(cols.last().physical_type)
        }
    }
}

/// What a reported brief schema must be: one `(type name, count)` entry per
/// distinct physical type, in order of first occurrence, each counting the
/// leaf columns of that type.
pub open spec fn is_schema_brief_of(r: Seq<(Seq<char>, u64)>, cols: Seq<SchemaColumn>) -> bool {
    &&& r.len() == distinct_types(cols).len()
    &&& forall|k: int|
        0 <= k < r.len() ==> #[trigger] r[k].0 == distinct_types(cols)[k].spec_name()
            && r[k].1 == count_type(cols, distinct_types(cols)[k])
}

proof fn lemma_distinct_types_nodup(cols: Seq<SchemaColumn>)
    ensures
        forall|a: int, b: int|
            0 <= a < b < distinct_types(cols).len() ==> distinct_types(cols)[a]
                != distinct_types(cols)[b],
    decreases cols.len(),
{
    if cols.len() > 0 {
        lemma_distinct_types_nodup(cols.drop_last());
        let rest = distinct_types(cols.drop_last());
        let d = distinct_types(cols);
        let t = cols.last().physical_type;
        if !rest.contains(t) {
            assert(d =~= rest.push(t));
            assert forall|a: int, b: int| 0 <= a < b < d.len() implies d[a] != d[b] by {
                if b == d.len() - 1 {
                    assert(d[a] == rest[a]);
                    assert(rest[a] != t);
                } else {
                    assert(d[a] == rest[a] && d[b] == rest[b]);
                }
            }
        }
    }
}

proof fn lemma_count_type_le_len(cols: Seq<SchemaColumn>, t: PhysicalType)
    ensures
        0 <= count_type(cols, t) <= cols.len(),
    decreases cols.len(),
{
    if cols.len() > 0 {
        lemma_count_type_le_len(cols.drop_last(), t);
    }
}

proof fn lemma_count_not_in_distinct(cols: Seq<SchemaColumn>, t: PhysicalType)
    requires
        !distinct_types(cols).contains(t),
    ensures
        count_type(cols, t) == 0,
    decreases cols.len(),
{
    if cols.len() > 0 {
        let rest = distinct_types(cols.drop_last());
        let lt = cols.last().physical_type;
        if rest.contains(t) {
            let j = choose|j: int| 0 <= j < rest.len() && rest[j] == t;
            assert(distinct_types(cols)[j] == t);
            assert(false);
        }
        lemma_count_not_in_distinct(cols.drop_last(), t);
        if lt == t {
            assert(distinct_types(cols) == rest.push(lt));
            assert(distinct_types(cols).last() == t);
            assert(false);
        }
    }
}

proof fn lemma_count_type_take_step(cols: Seq<SchemaColumn>, i: int, t: PhysicalType)
    requires
        0 <= i < cols.len(),
    ensures
        count_type(cols.take(i + 1), t) == count_type(cols.take(i), t) + (
        if cols[i].physical_type == t {
            1int
        } else {
            0int
        }),
{
    assert(cols.take(i + 1).drop_last() =~= cols.take(i));
    assert(cols.take(i + 1).last() == cols[i]);
}

proof fn lemma_distinct_types_take_step(cols: Seq<SchemaColumn>, i: int)
    requires
        0 <= i < cols.len(),
    ensures
        distinct_types(cols.take(i)).contains(cols[i].physical_type) ==> distinct_types(
            cols.take(i + 1),
        ) == distinct_types(cols.take(i)),
        !distinct_types(cols.take(i)).contains(cols[i].physical_type) ==> distinct_types(
            cols.take(i + 1),
        ) == distinct_types(cols.take(i)).push(cols[i].physical_type),
{
    assert(cols.take(i + 1).drop_last() =~= cols.take(i));
    assert(cols.take(i + 1).last() == cols[i]);
}

/// Groups the leaf columns by physical type, in order of first occurrence.
fn group_types(footer: &FooterMeta) -> (r: Vec<(PhysicalType, u64)>)
    ensures
        r@.map_values(|e: (PhysicalType, u64)| e.0) == distinct_types(footer.columns@),
        forall|k: int|
            0 <= k < r@.len() ==> (#[trigger] r@[k]).1 == count_type(footer.columns@, r@[k].0),
{
    let ghost cols = footer.columns@;
    let n = footer.columns.len();
    let mut out: Vec<(PhysicalType, u64)> = Vec::new();
    let mut i: usize = 0;
    while i < n
        invariant
            0 <= i <= n,
            n == cols.len(),
            cols == footer.columns@,
            out@.map_values(|e: (PhysicalType, u64)| e.0) =~= distinct_types(cols.take(i as int)),
            forall|k: int|
                0 <= k < out@.len() ==> (#[trigger] out@[k]).1 == count_type(
                    cols.take(i as int),
                    out@[k].0,
                ),
        decreases n - i,
    {
        let t = footer.columns[i].physical_type;
        proof {
            lemma_distinct_types_take_step(cols, i as int);
        }
        let mut found: Option<usize> = None;
        let m = out.len();
        let mut j: usize = 0;
        while j < m
            invariant
                0 <= j <= m,
                m == out@.len(),
                found matches Some(k) ==> k < m && out@[k as int].0 == t,
                found is None ==> forall|k: int| 0 <= k < j ==> #[trigger] out@[k].0 != t,
            decreases m - j,
        {
            if out[j].0 == t {
                found = Some(j);
                j = m;
            } else {
                j += 1;
            }
        }
        let ghost prev = out@;
        let ghost prev_types = prev.map_values(|e: (PhysicalType, u64)| e.0);
        match found {
            Some(k) => {
                proof {
                    assert(prev_types[k as int] == t);
                    assert(distinct_types(cols.take(i as int)).contains(t));
                    lemma_count_type_le_len(cols.take(i as int), t);
                    lemma_distinct_types_nodup(cols.take(i as int));
                }
                let c = out[k].1;
                out[k] = (t, c + 1);
                proof {
                    assert(out@ =~= prev.update(k as int, (t, (prev[k as int].1 + 1) as u64)));
                    assert(out@.map_values(|e: (PhysicalType, u64)| e.0) =~= prev_types);
                    assert forall|q: int| 0 <= q < out@.len() implies (#[trigger] out@[q]).1
                        == count_type(cols.take(i + 1), out@[q].0) by {
                        lemma_count_type_take_step(cols, i as int, prev[q].0);
                        assert(prev[q].1 == count_type(cols.take(i as int), prev[q].0));
                        if q != k {
                            assert(out@[q] == prev[q]);
                            assert(prev_types[q] == prev[q].0);
                            assert(prev_types[q] != prev_types[k as int]);
                            assert(prev[q].0 != t);
                        } else {
                            assert(out@[q] == (t, (prev[k as int].1 + 1) as u64));
                            assert(prev[k as int].1 + 1 <= cols.take(i as int).len() + 1);
                        }
                    }
                }
            },
            None => {
                proof {
                    assert forall|q: int| 0 <= q < prev_types.len() implies prev_types[q] != t by {
                        assert(prev[q].0 != t);
                    }
                    assert(!distinct_types(cols.take(i as int)).contains(t));
                    lemma_count_not_in_distinct(cols.take(i as int), t);
                }
                out.push((t, 1));
                proof {
                    assert(out@.map_values(|e: (PhysicalType, u64)| e.0) =~= prev_types.push(t));
                    assert forall|q: int| 0 <= q < out@.len() implies (#[trigger] out@[q]).1
                        == count_type(cols.take(i + 1), out@[q].0) by {
                        lemma_count_type_take_step(cols, i as int, out@[q].0);
                        if q < prev.len() {
                            assert(out@[q] == prev[q]);
                            assert(prev[q].1 == count_type(cols.take(i as int), prev[q].0));
                            assert(prev_types[q] == prev[q].0);
                            assert(prev[q].0 != t);
                        } else {
                            assert(out@[q] == (t, 1u64));
                            assert(count_type(cols.take(i as int), t) == 0);
                        }
                    }
                }
            },
        }
        i += 1;
    }
    proof {
        assert(cols.take(n as int) =~= cols);
    }
    out
}

/// The sum of the counts in a brief schema report.
pub open spec fn sum_counts(entries: Seq<(Seq<char>, u64)>) -> int
    decreases entries.len(),
{
    if entries.len() == 0 {
        0
    } else {
        sum_counts(entries.drop_last()) + entries.last().1
    }
}

/// How often `t` occurs in `ts`.
spec fn occ_type(ts: Seq<PhysicalType>, t: PhysicalType) -> int
    decreases ts.len(),
{
    if ts.len() == 0 {
        0
    } else {
        occ_type(ts.drop_last(), t) + if ts.last() == t {
            1int
        } else {
            0int
        }
    }
}

/// The sum of `count_type(cols, t)` over the types `ts`.
spec fn sum_count_over(ts: Seq<PhysicalType>, cols: Seq<SchemaColumn>) -> int
    decreases ts.len(),
{
    if ts.len() == 0 {
        0
    } else {
        sum_count_over(ts.drop_last(), cols) + count_type(cols, ts.last())
    }
}

proof fn lemma_count_type_push(cols: Seq<SchemaColumn>, c: SchemaColumn, t: PhysicalType)
    ensures
        count_type(cols.push(c), t) == count_type(cols, t) + (if c.physical_type == t {
            1int
        } else {
            0int
        }),
{
    assert(cols.push(c).drop_last() =~= cols);
    assert(cols.push(c).last() == c);
}

proof fn lemma_sum_over_push_col(ts: Seq<PhysicalType>, cols: Seq<SchemaColumn>, c: SchemaColumn)
    ensures
        sum_count_over(ts, cols.push(c)) == sum_count_over(ts, cols) + occ_type(
            ts,
            c.physical_type,
        ),
    decreases ts.len(),
{
    if ts.len() > 0 {
        lemma_sum_over_push_col(ts.drop_last(), cols, c);
        lemma_count_type_push(cols, c, ts.last());
    }
}

proof fn lemma_occ_distinct(cols: Seq<SchemaColumn>, t: PhysicalType)
    ensures
        occ_type(distinct_types(cols), t) == if distinct_types(cols).contains(t) {
            1int
        } else {
            0int
        },
    decreases cols.len(),
{
    if cols.len() > 0 {
        lemma_occ_distinct(cols.drop_last(), t);
        let rest = distinct_types(cols.drop_last());
        let lt = cols.last().physical_type;
        let d = distinct_types(cols);
        if rest.contains(lt) {
            assert(d == rest);
        } else {
            assert(d == rest.push(lt));
            assert(d.drop_last() =~= rest);
            assert(d.last() == lt);
            assert(occ_type(d, t) == occ_type(rest, t) + if lt == t {
                1int
            } else {
                0int
            });
            if t == lt {
                assert(d[d.len() - 1] == t);
                assert(d.contains(t));
                assert(!rest.contains(t));
            } else {
                if d.contains(t) {
                    let w = choose|w: int| 0 <= w < d.len() && d[w] == t;
                    assert(w < d.len() - 1);
                    assert(rest[w] == t);
                    assert(rest.contains(t));
                } else {
                    if rest.contains(t) {
                        let w = choose|w: int| 0 <= w < rest.len() && rest[w] == t;
                        assert(d[w] == t);
                        assert(false);
                    }
                }
            }
        }
    }
}

proof fn lemma_count_partition(cols: Seq<SchemaColumn>)
    ensures
        sum_count_over(distinct_types(cols), cols) == cols.len(),
    decreases cols.len(),
{
    if cols.len() > 0 {
        let rcols = cols.drop_last();
        let c = cols.last();
        lemma_count_partition(rcols);
        let rest = distinct_types(rcols);
        let d = distinct_types(cols);
        assert(rcols.push(c) =~= cols);
        lemma_occ_distinct(rcols, c.physical_type);
        if rest.contains(c.physical_type) {
            assert(d == rest);
            lemma_sum_over_push_col(d, rcols, c);
        } else {
            assert(d == rest.push(c.physical_type));
            assert(d.drop_last() =~= rest);
            assert(d.last() == c.physical_type);
            assert(sum_count_over(d, cols) == sum_count_over(rest, cols) + count_type(
                cols,
                c.physical_type,
            ));
            lemma_sum_over_push_col(rest, rcols, c);
            lemma_count_not_in_distinct(rcols, c.physical_type);
            lemma_count_type_push(rcols, c, c.physical_type);
        }
    }
}

proof fn lemma_sum_counts_pointwise(
    brief: Seq<(Seq<char>, u64)>,
    ts: Seq<PhysicalType>,
    cols: Seq<SchemaColumn>,
)
    requires
        brief.len() == ts.len(),
        forall|k: int| 0 <= k < brief.len() ==> (#[trigger] brief[k]).1 == count_type(cols, ts[k]),
    ensures
        sum_counts(brief) == sum_count_over(ts, cols),
    decreases brief.len(),
{
    if brief.len() > 0 {
        assert forall|k: int| 0 <= k < brief.drop_last().len() implies (#[trigger] brief.drop_last()[
            k
        ]).1 == count_type(cols, ts.drop_last()[k]) by {
            assert(brief.drop_last()[k] == brief[k]);
            assert(ts.drop_last()[k] == ts[k]);
        }
        lemma_sum_counts_pointwise(brief.drop_last(), ts.drop_last(), cols);
        assert(brief.last() == brief[brief.len() - 1]);
        assert(ts.last() == ts[ts.len() - 1]);
    }
}

/// Law: for every footer, the leaf column count reported in the shape
/// equals the number of entries in the full schema and the sum of the
/// per-type counts in the brief schema; and in a well-formed footer the
/// full schema's keys are pairwise distinct, so the entry count is the
/// key count.
pub proof fn lemma_schema_partition(
    footer: FooterMeta,
    s: Shape,
    full: Seq<(String, String)>,
    brief: Seq<(Seq<char>, u64)>,
)
    requires
        is_shape_of(s, footer),
        is_schema_full_of(full, footer.columns@),
        is_schema_brief_of(brief, footer.columns@),
    ensures
        full.len() == s.num_cols_leaf,
        sum_counts(brief) == s.num_cols_leaf,
        footer.wf() ==> forall|i: int, j: int|
            0 <= i < j < full.len() ==> full[i].0@ != full[j].0@,
{
    let w = full.map_values(|e: (String, String)| (e.0@, e.1@));
    assert(w == schema_full_of(footer.columns@));
    assert(full.len() == w.len());
    assert(w.len() == footer.columns@.len());
    if footer.wf() {
        assert forall|i: int, j: int| 0 <= i < j < full.len() implies full[i].0@
            != full[j].0@ by {
            assert(w[i] == (full[i].0@, full[i].1@));
            assert(w[j] == (full[j].0@, full[j].1@));
            assert(w[i] == schema_full_of(footer.columns@)[i]);
            assert(w[j] == schema_full_of(footer.columns@)[j]);
            assert(footer.columns@[i].name@ != footer.columns@[j].name@);
        }
    }
    assert(full.map_values(|e: (String, String)| (e.0@, e.1@)).len() == full.len());
    lemma_count_partition(footer.columns@);
    assert forall|k: int| 0 <= k < brief.len() implies (#[trigger] brief[k]).1 == count_type(
        footer.columns@,
        distinct_types(footer.columns@)[k],
    ) by {
        assert(brief[k].0 == distinct_types(footer.columns@)[k].spec_name());
    }
    lemma_sum_counts_pointwise(brief, distinct_types(footer.columns@), footer.columns@);
}

/// Reports the brief schema: a count of leaf columns per physical type name,
/// types listed in order of first occurrence in the schema.
pub fn schema_brief(footer: &FooterMeta) -> (r: Vec<(String, u64)>)
    ensures
        is_schema_brief_of(
            r@.map_values(|e: (String, u64)| (e.0@, e.1)),
            footer.columns@,
        ),
{
    let grouped = group_types(footer);
    let n = grouped.len();
    let mut out: Vec<(String, u64)> = Vec::new();
    let mut i: usize = 0;
    while i < n
        invariant
            0 <= i <= n,
            n == grouped@.len(),
            grouped@.map_values(|e: (PhysicalType, u64)| e.0) == distinct_types(footer.columns@),
            forall|k: int|
                0 <= k < grouped@.len() ==> (#[trigger] grouped@[k]).1 == count_type(
                    footer.columns@,
                    grouped@[k].0,
                ),
            out@.len() == i,
            forall|k: int|
                0 <= k < i ==> (#[trigger] out@[k]).0@ == grouped@[k].0.spec_name() && out@[k].1
                    == grouped@[k].1,
        decreases n - i,
    {
        let t = grouped[i].0;
        out.push((String::from_str(t.name()), grouped[i].1));
        i += 1;
    }
    proof {
        let named = out@.map_values(|e: (String, u64)| (e.0@, e.1));
        let types = grouped@.map_values(|e: (PhysicalType, u64)| e.0);
        assert forall|k: int| 0 <= k < named.len() implies #[trigger] named[k].0 == distinct_types(
            footer.columns@,
        )[k].spec_name() && named[k].1 == count_type(
            footer.columns@,
            distinct_types(footer.columns@)[k],
        ) by {
            assert(types[k] == grouped@[k].0);
        }
    }
    out
}

} // verus!
