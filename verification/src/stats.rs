//! Cross-batch accumulation of per-column null and non-null counts.
//!
//! A full scan of one file yields a sequence of batches; every batch lists,
//! for each column present in it, the column's length and null count.  The
//! accumulator folds these into one total per column name, keyed in order of
//! first appearance.  Totals are exact sums: if a column's total would not
//! fit the counter width, the whole accumulation is refused rather than
//! returning a wrong total.

use vstd::prelude::*;

verus! {

/// Accumulated counts for one column: how many values were null and how
/// many were not, summed over every batch.
#[derive(Clone, Copy)]
pub struct ColumnStats {
    pub nulls: u64,
    pub non_nulls: u64,
}

/// One column of one batch: its name, its length in rows, and how many of
/// its values are null.
pub struct BatchColumn {
    pub name: String,
    pub len: usize,
    pub null_count: usize,
}

/// One batch of row data: its row count and its columns.
pub struct Batch {
    pub num_rows: usize,
    pub columns: Vec<BatchColumn>,
}

impl BatchColumn {
    /// A column never holds more nulls than values.
    pub open spec fn counts_ok(self) -> bool {
        self.null_count <= self.len
    }
}

impl Batch {
    /// Every column's null count is bounded by its length.
    pub open spec fn counts_ok(self) -> bool {
        forall|i: int| 0 <= i < self.columns@.len() ==> (#[trigger] self.columns@[i]).counts_ok()
    }

    /// A well-formed batch: every column is exactly as long as the batch.
    pub open spec fn wf(self) -> bool {
        forall|i: int|
            0 <= i < self.columns@.len() ==> (#[trigger] self.columns@[i]).counts_ok()
                && self.columns@[i].len == self.num_rows
    }
}

/// The nulls contributed to column `name` by the columns `cols` of one batch.
pub open spec fn cols_nulls(cols: Seq<BatchColumn>, name: Seq<char>) -> int
    decreases cols.len(),
{
    if cols.len() == 0 {
        0
    } else {
        cols_nulls(cols.drop_last(), name) + if cols.last().name@ == name {
            cols.last().null_count as int
        } else {
            0int
        }
    }
}

/// The non-nulls contributed to column `name` by the columns of one batch.
pub open spec fn cols_non_nulls(cols: Seq<BatchColumn>, name: Seq<char>) -> int
    decreases cols.len(),
{
    if cols.len() == 0 {
        0
    } else {
        cols_non_nulls(cols.drop_last(), name) + if cols.last().name@ == name {
            cols.last().len - cols.last().null_count
        } else {
            0int
        }
    }
}

/// How many columns named `name` a batch holds.
pub open spec fn cols_occ(cols: Seq<BatchColumn>, name: Seq<char>) -> int
    decreases cols.len(),
{
    if cols.len() == 0 {
        0
    } else {
        cols_occ(cols.drop_last(), name) + if cols.last().name@ == name {
            1int
        } else {
            0int
        }
    }
}

/// The total nulls of column `name` over a sequence of batches.
pub open spec fn total_nulls(batches: Seq<Batch>, name: Seq<char>) -> int
    decreases batches.len(),
{
    if batches.len() == 0 {
        0
    } else {
        total_nulls(batches.drop_last(), name) + cols_nulls(batches.last().columns@, name)
    }
}

/// The total non-nulls of column `name` over a sequence of batches.
pub open spec fn total_non_nulls(batches: Seq<Batch>, name: Seq<char>) -> int
    decreases batches.len(),
{
    if batches.len() == 0 {
        0
    } else {
        total_non_nulls(batches.drop_last(), name) + cols_non_nulls(batches.last().columns@, name)
    }
}

/// The total rows over a sequence of batches.
pub open spec fn total_rows(batches: Seq<Batch>) -> int
    decreases batches.len(),
{
    if batches.len() == 0 {
        0
    } else {
        total_rows(batches.drop_last()) + batches.last().num_rows
    }
}

/// The names already in `seen`, extended by the names of `cols` in order of
/// first appearance.
pub open spec fn add_names(seen: Seq<Seq<char>>, cols: Seq<BatchColumn>) -> Seq<Seq<char>>
    decreases cols.len(),
{
    if cols.len() == 0 {
        seen
    } else {
        let prior = add_names(seen, cols.drop_last());
        if prior.contains(cols.last().name@) {
            prior
        } else {
            prior.push(cols.last().name@)
        }
    }
}

/// Every column name appearing in the batches, in order of first appearance.
pub open spec fn batch_names(batches: Seq<Batch>) -> Seq<Seq<char>>
    decreases batches.len(),
{
    if batches.len() == 0 {
        Seq::<Seq<char>>::empty()
    } else {
        add_names(batch_names(batches.drop_last()), batches.last().columns@)
    }
}

/// Whether every per-column total over `batches` fits a `u64` counter.
pub open spec fn totals_fit(batches: Seq<Batch>) -> bool {
    forall|k: int|
        0 <= k < batch_names(batches).len() ==> total_nulls(
            batches,
            #[trigger] batch_names(batches)[k],
        ) <= u64::MAX && total_non_nulls(batches, batch_names(batches)[k]) <= u64::MAX
}

/// What an accumulation result must be: one entry per column name in order
/// of first appearance, carrying that column's exact totals.
pub open spec fn is_stats_of(r: Seq<(String, ColumnStats)>, batches: Seq<Batch>) -> bool {
    &&& r.map_values(|e: (String, ColumnStats)| e.0@) == batch_names(batches)
    &&& forall|k: int|
        0 <= k < r.len() ==> (#[trigger] r[k]).1.nulls == total_nulls(batches, r[k].0@)
            && r[k].1.non_nulls == total_non_nulls(batches, r[k].0@)
}

proof fn lemma_cols_take_step(cols: Seq<BatchColumn>, j: int, name: Seq<char>)
    requires
        0 <= j < cols.len(),
    ensures
        cols_nulls(cols.take(j + 1), name) == cols_nulls(cols.take(j), name) + (
        if cols[j].name@ == name {
            cols[j].null_count as int
        } else {
            0int
        }),
        cols_non_nulls(cols.take(j + 1), name) == cols_non_nulls(cols.take(j), name) + (
        if cols[j].name@ == name {
            cols[j].len - cols[j].null_count
        } else {
            0int
        }),
{
    assert(cols.take(j + 1).drop_last() =~= cols.take(j));
    assert(cols.take(j + 1).last() == cols[j]);
}

proof fn lemma_add_names_take_step(seen: Seq<Seq<char>>, cols: Seq<BatchColumn>, j: int)
    requires
        0 <= j < cols.len(),
    ensures
        add_names(seen, cols.take(j)).contains(cols[j].name@) ==> add_names(seen, cols.take(j + 1))
            == add_names(seen, cols.take(j)),
        !add_names(seen, cols.take(j)).contains(cols[j].name@) ==> add_names(
            seen,
            cols.take(j + 1),
        ) == add_names(seen, cols.take(j)).push(cols[j].name@),
{
    assert(cols.take(j + 1).drop_last() =~= cols.take(j));
    assert(cols.take(j + 1).last() == cols[j]);
}

proof fn lemma_batches_take_step(batches: Seq<Batch>, b: int, name: Seq<char>)
    requires
        0 <= b < batches.len(),
    ensures
        total_nulls(batches.take(b + 1), name) == total_nulls(batches.take(b), name) + cols_nulls(
            batches[b].columns@,
            name,
        ),
        total_non_nulls(batches.take(b + 1), name) == total_non_nulls(batches.take(b), name)
            + cols_non_nulls(batches[b].columns@, name),
        batch_names(batches.take(b + 1)) == add_names(
            batch_names(batches.take(b)),
            batches[b].columns@,
        ),
{
    assert(batches.take(b + 1).drop_last() =~= batches.take(b));
    assert(batches.take(b + 1).last() == batches[b]);
}

proof fn lemma_seen_in_add_names(seen: Seq<Seq<char>>, cols: Seq<BatchColumn>, name: Seq<char>)
    requires
        seen.contains(name),
    ensures
        add_names(seen, cols).contains(name),
    decreases cols.len(),
{
    if cols.len() > 0 {
        lemma_seen_in_add_names(seen, cols.drop_last(), name);
        let prior = add_names(seen, cols.drop_last());
        if !prior.contains(cols.last().name@) {
            let w = choose|w: int| 0 <= w < prior.len() && prior[w] == name;
            assert(add_names(seen, cols)[w] == name);
        }
    }
}

proof fn lemma_not_in_names_zero(seen: Seq<Seq<char>>, cols: Seq<BatchColumn>, name: Seq<char>)
    requires
        !add_names(seen, cols).contains(name),
    ensures
        cols_nulls(cols, name) == 0,
        cols_non_nulls(cols, name) == 0,
    decreases cols.len(),
{
    if cols.len() > 0 {
        let prior = add_names(seen, cols.drop_last());
        if add_names(seen, cols.drop_last()).contains(name) {
            if !prior.contains(cols.last().name@) {
                let w = choose|w: int| 0 <= w < prior.len() && prior[w] == name;
                assert(add_names(seen, cols)[w] == name);
            }
            assert(false);
        }
        lemma_not_in_names_zero(seen, cols.drop_last(), name);
        if cols.last().name@ == name {
            if prior.contains(name) {
                assert(false);
            } else {
                assert(add_names(seen, cols).last() == name);
                assert(false);
            }
        }
    }
}

proof fn lemma_not_in_batch_names_zero(batches: Seq<Batch>, name: Seq<char>)
    requires
        !batch_names(batches).contains(name),
    ensures
        total_nulls(batches, name) == 0,
        total_non_nulls(batches, name) == 0,
    decreases batches.len(),
{
    if batches.len() > 0 {
        let seen = batch_names(batches.drop_last());
        if seen.contains(name) {
            lemma_seen_in_add_names(seen, batches.last().columns@, name);
            assert(false);
        }
        lemma_not_in_batch_names_zero(batches.drop_last(), name);
        lemma_not_in_names_zero(seen, batches.last().columns@, name);
    }
}

proof fn lemma_add_names_nodup(seen: Seq<Seq<char>>, cols: Seq<BatchColumn>)
    requires
        forall|a: int, b: int| 0 <= a < b < seen.len() ==> seen[a] != seen[b],
    ensures
        forall|a: int, b: int|
            0 <= a < b < add_names(seen, cols).len() ==> add_names(seen, cols)[a] != add_names(
                seen,
                cols,
            )[b],
        seen.len() <= add_names(seen, cols).len(),
        forall|a: int| 0 <= a < seen.len() ==> add_names(seen, cols)[a] == seen[a],
    decreases cols.len(),
{
    if cols.len() > 0 {
        lemma_add_names_nodup(seen, cols.drop_last());
        let prior = add_names(seen, cols.drop_last());
        let d = add_names(seen, cols);
        let nm = cols.last().name@;
        if !prior.contains(nm) {
            assert(d =~= prior.push(nm));
            assert forall|a: int, b: int| 0 <= a < b < d.len() implies d[a] != d[b] by {
                if b == d.len() - 1 {
                    assert(d[a] == prior[a]);
                    assert(prior[a] != nm);
                } else {
                    assert(d[a] == prior[a] && d[b] == prior[b]);
                }
            }
        }
    }
}

proof fn lemma_batch_names_nodup(batches: Seq<Batch>)
    ensures
        forall|a: int, b: int|
            0 <= a < b < batch_names(batches).len() ==> batch_names(batches)[a] != batch_names(
                batches,
            )[b],
    decreases batches.len(),
{
    if batches.len() > 0 {
        lemma_batch_names_nodup(batches.drop_last());
        lemma_add_names_nodup(batch_names(batches.drop_last()), batches.last().columns@);
    }
}

proof fn lemma_cols_sums_nonneg(cols: Seq<BatchColumn>, name: Seq<char>)
    requires
        forall|i: int| 0 <= i < cols.len() ==> (#[trigger] cols[i]).counts_ok(),
    ensures
        0 <= cols_nulls(cols, name),
        0 <= cols_non_nulls(cols, name),
    decreases cols.len(),
{
    if cols.len() > 0 {
        lemma_cols_sums_nonneg(cols.drop_last(), name);
        assert(cols.last() == cols[cols.len() - 1]);
    }
}

proof fn lemma_cols_take_le(cols: Seq<BatchColumn>, j: int, name: Seq<char>)
    requires
        0 <= j <= cols.len(),
        forall|i: int| 0 <= i < cols.len() ==> (#[trigger] cols[i]).counts_ok(),
    ensures
        cols_nulls(cols.take(j), name) <= cols_nulls(cols, name),
        cols_non_nulls(cols.take(j), name) <= cols_non_nulls(cols, name),
    decreases cols.len() - j,
{
    if j == cols.len() {
        assert(cols.take(j) =~= cols);
    } else {
        lemma_cols_take_le(cols, j + 1, name);
        lemma_cols_take_step(cols, j, name);
        assert(cols[j].counts_ok());
    }
}

proof fn lemma_total_take_le(batches: Seq<Batch>, b: int, name: Seq<char>)
    requires
        0 <= b <= batches.len(),
        forall|i: int| 0 <= i < batches.len() ==> (#[trigger] batches[i]).counts_ok(),
    ensures
        total_nulls(batches.take(b), name) <= total_nulls(batches, name),
        total_non_nulls(batches.take(b), name) <= total_non_nulls(batches, name),
    decreases batches.len() - b,
{
    if b == batches.len() {
        assert(batches.take(b) =~= batches);
    } else {
        lemma_total_take_le(batches, b + 1, name);
        lemma_batches_take_step(batches, b, name);
        assert(batches[b].counts_ok());
        lemma_cols_sums_nonneg(batches[b].columns@, name);
    }
}

proof fn lemma_name_in_batch_names(batches: Seq<Batch>, b: int, j: int)
    requires
        0 <= b < batches.len(),
        0 <= j < batches[b].columns@.len(),
    ensures
        batch_names(batches).contains(batches[b].columns@[j].name@),
    decreases batches.len(),
{
    let nm = batches[b].columns@[j].name@;
    if b == batches.len() - 1 {
        lemma_name_in_add_names(batch_names(batches.drop_last()), batches[b].columns@, j);
    } else {
        lemma_name_in_batch_names(batches.drop_last(), b, j);
        assert(batches.drop_last()[b] == batches[b]);
        lemma_seen_in_add_names(batch_names(batches.drop_last()), batches.last().columns@, nm);
    }
}

proof fn lemma_name_in_add_names(seen: Seq<Seq<char>>, cols: Seq<BatchColumn>, j: int)
    requires
        0 <= j < cols.len(),
    ensures
        add_names(seen, cols).contains(cols[j].name@),
    decreases cols.len(),
{
    let nm = cols[j].name@;
    if j == cols.len() - 1 {
        let prior = add_names(seen, cols.drop_last());
        if prior.contains(nm) {
            let w = choose|w: int| 0 <= w < prior.len() && prior[w] == nm;
            assert(add_names(seen, cols)[w] == nm);
        } else {
            assert(add_names(seen, cols).last() == nm);
        }
    } else {
        lemma_name_in_add_names(seen, cols.drop_last(), j);
        assert(cols.drop_last()[j] == cols[j]);
        let prior = add_names(seen, cols.drop_last());
        if !prior.contains(cols.last().name@) {
            let w = choose|w: int| 0 <= w < prior.len() && prior[w] == nm;
            assert(add_names(seen, cols)[w] == nm);
        }
    }
}

/// Accumulates per-column totals over all batches of one file's scan.
///
/// Returns one entry per column name, in order of first appearance, whose
/// counts are the exact sums of that column's per-batch null and non-null
/// counts.  Returns `None` exactly when some column's total would not fit
/// the counter width; no partial totals are ever returned.
pub fn accumulate(batches: &Vec<Batch>) -> (r: Option<Vec<(String, ColumnStats)>>)
    requires
        forall|i: int| 0 <= i < batches@.len() ==> (#[trigger] batches@[i]).counts_ok(),
    ensures
        r is Some <==> totals_fit(batches@),
        r matches Some(m) ==> is_stats_of(m@, batches@),
{
    let ghost bs = batches@;
    let mut names: Vec<String> = Vec::new();
    let mut stats: Vec<ColumnStats> = Vec::new();
    let nb = batches.len();
    let mut b: usize = 0;
    while b < nb
        invariant
            0 <= b <= nb,
            nb == bs.len(),
            bs == batches@,
            forall|i: int| 0 <= i < bs.len() ==> (#[trigger] bs[i]).counts_ok(),
            names@.len() == stats@.len(),
            names@.map_values(|s: String| s@) =~= batch_names(bs.take(b as int)),
            forall|k: int|
                0 <= k < stats@.len() ==> (#[trigger] stats@[k]).nulls == total_nulls(
                    bs.take(b as int),
                    names@[k]@,
                ) && stats@[k].non_nulls == total_non_nulls(bs.take(b as int), names@[k]@),
        decreases nb - b,
    {
        let ghost seen = batch_names(bs.take(b as int));
        let cols = &batches[b].columns;
        let ghost cs = cols@;
        let nc_total = cols.len();
        let mut j: usize = 0;
        while j < nc_total
            invariant
                0 <= j <= nc_total,
                0 <= b < bs.len(),
                nc_total == cs.len(),
                bs == batches@,
                cs == bs[b as int].columns@,
                cols@ == cs,
                seen == batch_names(bs.take(b as int)),
                forall|i: int| 0 <= i < bs.len() ==> (#[trigger] bs[i]).counts_ok(),
                names@.len() == stats@.len(),
                names@.map_values(|s: String| s@) =~= add_names(seen, cs.take(j as int)),
                forall|k: int|
                    0 <= k < stats@.len() ==> (#[trigger] stats@[k]).nulls == total_nulls(
                        bs.take(b as int),
                        names@[k]@,
                    ) + cols_nulls(cs.take(j as int), names@[k]@) && stats@[k].non_nulls
                    == total_non_nulls(bs.take(b as int), names@[k]@) + cols_non_nulls(
                    cs.take(j as int),
                    names@[k]@,
                ),
            decreases nc_total - j,
        {
            let col = &cols[j];
            let ghost nm = col.name@;
            proof {
                assert(bs[b as int].counts_ok());
                assert(cs[j as int].counts_ok());
                lemma_cols_take_step(cs, j as int, nm);
                lemma_add_names_take_step(seen, cs, j as int);
                lemma_name_in_batch_names(bs, b as int, j as int);
            }
            let add_nulls = col.null_count as u64;
            let add_non_nulls = (col.len - col.null_count) as u64;
            let m = names.len();
            let mut k: usize = 0;
            let mut found: Option<usize> = None;
            while k < m
                invariant
                    0 <= k <= m,
                    m == names@.len(),
                    found matches Some(f) ==> f < m && names@[f as int]@ == col.name@,
                    found is None ==> forall|q: int|
                        0 <= q < k ==> (#[trigger] names@[q])@ != col.name@,
                decreases m - k,
            {
                if names[k] == col.name {
                    found = Some(k);
                    k = m;
                } else {
                    k += 1;
                }
            }
            let ghost prev_names = names@;
            let ghost prev_stats = stats@;
            let ghost name_views = prev_names.map_values(|s: String| s@);
            match found {
                Some(f) => {
                    proof {
                        assert(name_views[f as int] == nm);
                        assert(add_names(seen, cs.take(j as int)).contains(nm));
                        lemma_batch_names_nodup(bs.take(b as int));
                        lemma_add_names_nodup(seen, cs.take(j as int));
                    }
                    let cur = stats[f];
                    if u64::MAX - cur.nulls < add_nulls {
                        proof {
                            lemma_overflow_witness(bs, b as int, j as int, nm);
                        }
                        return None;
                    }
                    if u64::MAX - cur.non_nulls < add_non_nulls {
                        proof {
                            lemma_overflow_witness(bs, b as int, j as int, nm);
                        }
                        return None;
                    }
                    stats[f] = ColumnStats {
                        nulls: cur.nulls + add_nulls,
                        non_nulls: cur.non_nulls + add_non_nulls,
                    };
                    proof {
                        assert(stats@ =~= prev_stats.update(
                            f as int,
                            ColumnStats {
                                nulls: (prev_stats[f as int].nulls + add_nulls) as u64,
                                non_nulls: (prev_stats[f as int].non_nulls + add_non_nulls) as u64,
                            },
                        ));
                        assert forall|q: int| 0 <= q < stats@.len() implies (#[trigger] stats@[q]).nulls
                            == total_nulls(bs.take(b as int), names@[q]@) + cols_nulls(
                            cs.take(j + 1),
                            names@[q]@,
                        ) && stats@[q].non_nulls == total_non_nulls(bs.take(b as int), names@[q]@)
                            + cols_non_nulls(cs.take(j + 1), names@[q]@) by {
                            lemma_cols_take_step(cs, j as int, name_views[q]);
                            if q != f {
                                assert(stats@[q] == prev_stats[q]);
                                assert(name_views[q] != name_views[f as int]);
                            }
                        }
                    }
                },
                None => {
                    proof {
                        assert forall|q: int|
                            0 <= q < name_views.len() implies name_views[q] != nm by {
                            assert(prev_names[q]@ != nm);
                        }
                        assert(!add_names(seen, cs.take(j as int)).contains(nm));
                        if batch_names(bs.take(b as int)).contains(nm) {
                            lemma_seen_in_add_names(seen, cs.take(j as int), nm);
                        }
                        lemma_not_in_cols_prefix_zero(seen, cs, j as int, nm);
                        lemma_not_in_seen_total_zero(bs, b as int, nm);
                    }
                    names.push(col.name.clone());
                    stats.push(ColumnStats { nulls: add_nulls, non_nulls: add_non_nulls });
                    proof {
                        assert(names@.map_values(|s: String| s@) =~= name_views.push(nm));
                        assert forall|q: int| 0 <= q < stats@.len() implies (#[trigger] stats@[q]).nulls
                            == total_nulls(bs.take(b as int), names@[q]@) + cols_nulls(
                            cs.take(j + 1),
                            names@[q]@,
                        ) && stats@[q].non_nulls == total_non_nulls(bs.take(b as int), names@[q]@)
                            + cols_non_nulls(cs.take(j + 1), names@[q]@) by {
                            lemma_cols_take_step(cs, j as int, names@[q]@);
                            if q < prev_stats.len() {
                                assert(stats@[q] == prev_stats[q]);
                                assert(names@[q] == prev_names[q]);
                                assert(name_views[q] != nm);
                            } else {
                                assert(stats@[q] == ColumnStats {
                                    nulls: add_nulls,
                                    non_nulls: add_non_nulls,
                                });
                                assert(names@[q]@ == nm);
                            }
                        }
                    }
                },
            }
            j += 1;
        }
        proof {
            assert(cs.take(nc_total as int) =~= cs);
            assert forall|name: Seq<char>|
                #[trigger] total_nulls(bs.take(b + 1), name) == total_nulls(bs.take(b as int), name)
                    + cols_nulls(cs, name) && total_non_nulls(bs.take(b + 1), name)
                    == total_non_nulls(bs.take(b as int), name) + cols_non_nulls(cs, name) by {
                lemma_batches_take_step(bs, b as int, name);
            }
            lemma_batches_take_step(bs, b as int, Seq::<char>::empty());
        }
        b += 1;
    }
    proof {
        assert(bs.take(nb as int) =~= bs);
    }
    let n_out = names.len();
    let mut out: Vec<(String, ColumnStats)> = Vec::new();
    let mut i: usize = 0;
    while i < n_out
        invariant
            0 <= i <= n_out,
            n_out == names@.len(),
            names@.len() == stats@.len(),
            out@.len() == i,
            forall|k: int|
                0 <= k < i ==> (#[trigger] out@[k]).0 == names@[k] && out@[k].1 == stats@[k],
        decreases n_out - i,
    {
        out.push((names[i].clone(), stats[i]));
        i += 1;
    }
    proof {
        assert(out@.map_values(|e: (String, ColumnStats)| e.0@) =~= names@.map_values(
            |s: String| s@,
        ));
        lemma_totals_fit_holds(bs, out@);
    }
    Some(out)
}

proof fn lemma_overflow_witness(bs: Seq<Batch>, b: int, j: int, nm: Seq<char>)
    requires
        forall|i: int| 0 <= i < bs.len() ==> (#[trigger] bs[i]).counts_ok(),
        0 <= b < bs.len(),
        0 <= j < bs[b].columns@.len(),
        nm == bs[b].columns@[j].name@,
        total_nulls(bs.take(b), nm) + cols_nulls(bs[b].columns@.take(j + 1), nm) > u64::MAX
            || total_non_nulls(bs.take(b), nm) + cols_non_nulls(bs[b].columns@.take(j + 1), nm)
            > u64::MAX,
    ensures
        !totals_fit(bs),
{
    let cs = bs[b].columns@;
    assert(bs[b].counts_ok());
    lemma_cols_take_le(cs, j + 1, nm);
    lemma_batches_take_step(bs, b, nm);
    lemma_total_take_le(bs, b + 1, nm);
    lemma_name_in_batch_names(bs, b, j);
    let w = choose|w: int| 0 <= w < batch_names(bs).len() && batch_names(bs)[w] == nm;
    assert(total_nulls(bs, nm) > u64::MAX || total_non_nulls(bs, nm) > u64::MAX);
}

proof fn lemma_not_in_cols_prefix_zero(
    seen: Seq<Seq<char>>,
    cs: Seq<BatchColumn>,
    j: int,
    nm: Seq<char>,
)
    requires
        0 <= j <= cs.len(),
        !add_names(seen, cs.take(j)).contains(nm),
    ensures
        cols_nulls(cs.take(j), nm) == 0,
        cols_non_nulls(cs.take(j), nm) == 0,
{
    lemma_not_in_names_zero(seen, cs.take(j), nm);
}

proof fn lemma_not_in_seen_total_zero(bs: Seq<Batch>, b: int, nm: Seq<char>)
    requires
        0 <= b <= bs.len(),
        !batch_names(bs.take(b)).contains(nm),
    ensures
        total_nulls(bs.take(b), nm) == 0,
        total_non_nulls(bs.take(b), nm) == 0,
{
    lemma_not_in_batch_names_zero(bs.take(b), nm);
}

proof fn lemma_totals_fit_holds(bs: Seq<Batch>, out: Seq<(String, ColumnStats)>)
    requires
        out.map_values(|e: (String, ColumnStats)| e.0@) == batch_names(bs),
        forall|k: int|
            0 <= k < out.len() ==> (#[trigger] out[k]).1.nulls == total_nulls(bs, out[k].0@)
                && out[k].1.non_nulls == total_non_nulls(bs, out[k].0@),
    ensures
        totals_fit(bs),
{
    assert forall|k: int| 0 <= k < batch_names(bs).len() implies total_nulls(
        bs,
        #[trigger] batch_names(bs)[k],
    ) <= u64::MAX && total_non_nulls(bs, batch_names(bs)[k]) <= u64::MAX by {
        assert(out[k].0@ == batch_names(bs)[k]);
        assert(out[k].1.nulls == total_nulls(bs, out[k].0@));
    }
}

/// Law: when every batch is well formed and lists a column exactly once,
/// that column's accumulated nulls and non-nulls sum to the total row count
/// of the batches — the row count the file's footer reports.
pub proof fn lemma_stats_match_rows(batches: Seq<Batch>, name: Seq<char>)
    requires
        forall|i: int| 0 <= i < batches.len() ==> (#[trigger] batches[i]).wf(),
        forall|i: int|
            0 <= i < batches.len() ==> cols_occ((#[trigger] batches[i]).columns@, name) == 1,
    ensures
        total_nulls(batches, name) + total_non_nulls(batches, name) == total_rows(batches),
    decreases batches.len(),
{
    if batches.len() > 0 {
        lemma_stats_match_rows(batches.drop_last(), name);
        let last = batches.last();
        assert(last == batches[batches.len() - 1]);
        assert(last.wf());
        lemma_batch_sums(last.columns@, name, last.num_rows as int);
    }
}

proof fn lemma_batch_sums(cols: Seq<BatchColumn>, name: Seq<char>, rows: int)
    requires
        forall|i: int| 0 <= i < cols.len() ==> (#[trigger] cols[i]).len == rows,
    ensures
        cols_nulls(cols, name) + cols_non_nulls(cols, name) == rows * cols_occ(cols, name),
    decreases cols.len(),
{
    if cols.len() > 0 {
        lemma_batch_sums(cols.drop_last(), name, rows);
        assert(cols.last() == cols[cols.len() - 1]);
        let occ_prev = cols_occ(cols.drop_last(), name);
        if cols.last().name@ == name {
            assert(rows * (occ_prev + 1) == rows * occ_prev + rows) by (nonlinear_arith);
        }
    }
}

} // verus!

