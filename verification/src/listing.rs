//! Path classification, detail-level validation, and the directory
//! extension filter.

use vstd::prelude::*;

use crate::types::{DetailLevel, PathKind, SummaryError};

verus! {

/// The accepted detail levels and the schema depth each selects: level `0`
/// is the brief schema, levels `1` and `2` the full schema, and every other
/// level is refused.
pub open spec fn detail_level_of(level: u8) -> Option<DetailLevel> {
    if level == 0 {
        Some(DetailLevel::Brief)
    } else if level <= 2 {
        Some(DetailLevel::Full)
    } else {
        None::<DetailLevel>
    }
}

/// Validates a requested detail level before any file is touched: an
/// unsupported level is a configuration error naming that level.
pub fn validate_level(level: u8) -> (r: Result<DetailLevel, SummaryError>)
    ensures
        r matches Ok(d) ==> detail_level_of(level) == Some(d),
        r matches Err(e) ==> detail_level_of(level) is None && (e matches
            SummaryError::Configuration { level: l } && l == level),
        r is Ok <==> detail_level_of(level) is Some,
{
    if level == 0 {
        Ok(DetailLevel::Brief)
    } else if level <= 2 {
        Ok(DetailLevel::Full)
    } else {
        Err(SummaryError::Configuration { level })
    }
}

/// Classifies a path before summarization: a regular file and a directory
/// are accepted; anything else is a fatal error naming the path.
pub fn classify_path(kind: PathKind, path: &str) -> (r: Result<PathKind, SummaryError>)
    ensures
        r matches Ok(k) ==> k == kind && kind != PathKind::Other,
        r matches Err(e) ==> kind == PathKind::Other && (e matches SummaryError::PathKind {
            path: p,
        } && p@ == path@),
        r is Ok <==> kind != PathKind::Other,
{
    match kind {
        PathKind::File => Ok(PathKind::File),
        PathKind::Directory => Ok(PathKind::Directory),
        PathKind::Other => Err(SummaryError::PathKind { path: String::from_str(path) }),
    }
}

/// Whether `s` ends with `suffix`.
pub open spec fn ends_with(s: Seq<char>, suffix: Seq<char>) -> bool {
    s.len() >= suffix.len() && s.subrange(s.len() - suffix.len(), s.len() as int) == suffix
}

/// The directory inclusion filter: exactly the `.parquet` and `.pq`
/// suffixes, case-sensitive.
pub open spec fn is_parquet_name(s: Seq<char>) -> bool {
    ends_with(s, ".parquet"@) || ends_with(s, ".pq"@)
}

/// Decides the inclusion filter for one directory entry name.
pub fn has_parquet_extension(name: &str) -> (r: bool)
    ensures
        r == is_parquet_name(name@),
{
    proof {
        reveal_strlit(".parquet");
        reveal_strlit(".pq");
    }
    let ghost s = name@;
    let n = name.unicode_len();
    let long_ok: bool = if n >= 8 {
        let m = n - 8;
        let c0 = name.get_char(m) == '.';
        let c1 = name.get_char(m + 1) == 'p';
        let c2 = name.get_char(m + 2) == 'a';
        let c3 = name.get_char(m + 3) == 'r';
        let c4 = name.get_char(m + 4) == 'q';
        let c5 = name.get_char(m + 5) == 'u';
        let c6 = name.get_char(m + 6) == 'e';
        let c7 = name.get_char(m + 7) == 't';
        let all = c0 && c1 && c2 && c3 && c4 && c5 && c6 && c7;
        proof {
            let suf = ".parquet"@;
            let sub = s.subrange(s.len() - 8, s.len() as int);
            if all {
                assert(sub =~= suf);
            } else {
                if sub == suf {
                    assert(s[m as int] == sub[0]);
                    assert(s[m + 1] == sub[1]);
                    assert(s[m + 2] == sub[2]);
                    assert(s[m + 3] == sub[3]);
                    assert(s[m + 4] == sub[4]);
                    assert(s[m + 5] == sub[5]);
                    assert(s[m + 6] == sub[6]);
                    assert(s[m + 7] == sub[7]);
                }
            }
        }
        all
    } else {
        false
    };
    let short_ok: bool = if n >= 3 {
        let m = n - 3;
        let c0 = name.get_char(m) == '.';
        let c1 = name.get_char(m + 1) == 'p';
        let c2 = name.get_char(m + 2) == 'q';
        let all = c0 && c1 && c2;
        proof {
            let suf = ".pq"@;
            let sub = s.subrange(s.len() - 3, s.len() as int);
            if all {
                assert(sub =~= suf);
            } else {
                if sub == suf {
                    assert(s[m as int] == sub[0]);
                    assert(s[m + 1] == sub[1]);
                    assert(s[m + 2] == sub[2]);
                }
            }
        }
        all
    } else {
        false
    };
    long_ok || short_ok
}

/// The entry names that pass the inclusion filter, in listing order.
pub open spec fn parquet_entries(names: Seq<Seq<char>>) -> Seq<Seq<char>>
    decreases names.len(),
{
    if names.len() == 0 {
        Seq::<Seq<char>>::empty()
    } else {
        let rest = parquet_entries(names.drop_last());
        if is_parquet_name(names.last()) {
            rest.push(names.last())
        } else {
            rest
        }
    }
}

/// How often `name` occurs in `names`.
pub open spec fn occ_name(names: Seq<Seq<char>>, name: Seq<char>) -> int
    decreases names.len(),
{
    if names.len() == 0 {
        0
    } else {
        occ_name(names.drop_last(), name) + if names.last() == name {
            1int
        } else {
            0int
        }
    }
}

/// Applies the inclusion filter to a directory listing: keeps exactly the
/// entries named with a recognized extension, in listing order.
pub fn filter_parquet_entries(names: &Vec<String>) -> (r: Vec<String>)
    ensures
        r@.map_values(|s: String| s@) == parquet_entries(names@.map_values(|s: String| s@)),
{
    let ghost all = names@.map_values(|s: String| s@);
    let n = names.len();
    let mut out: Vec<String> = Vec::new();
    let mut i: usize = 0;
    while i < n
        invariant
            0 <= i <= n,
            n == names@.len(),
            all == names@.map_values(|s: String| s@),
            out@.map_values(|s: String| s@) =~= parquet_entries(all.take(i as int)),
        decreases n - i,
    {
        let ghost prev = out@.map_values(|s: String| s@);
        proof {
            assert(all.take(i + 1).drop_last() =~= all.take(i as int));
            assert(all.take(i + 1).last() == all[i as int]);
        }
        if has_parquet_extension(names[i].as_str()) {
            out.push(names[i].clone());
            proof {
                assert(out@.map_values(|s: String| s@) =~= prev.push(all[i as int]));
            }
        }
        i += 1;
    }
    proof {
        assert(all.take(n as int) =~= all);
    }
    out
}

/// Law: directory mode keeps exactly the matching entries — a name passing
/// the filter appears in the filtered listing as often as in the directory,
/// and a name failing it never appears.
pub proof fn lemma_filter_occurrences(names: Seq<Seq<char>>, name: Seq<char>)
    ensures
        occ_name(parquet_entries(names), name) == if is_parquet_name(name) {
            occ_name(names, name)
        } else {
            0int
        },
    decreases names.len(),
{
    if names.len() > 0 {
        lemma_filter_occurrences(names.drop_last(), name);
        let rest = parquet_entries(names.drop_last());
        if is_parquet_name(names.last()) {
            assert(parquet_entries(names) == rest.push(names.last()));
            assert(rest.push(names.last()).drop_last() =~= rest);
            assert(rest.push(names.last()).last() == names.last());
        }
    }
}

} // verus!
