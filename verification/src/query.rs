//! The query builder: turns a (source, filter, sort, page window) tuple
//! into the exact bounded, ordered query text the engine executes, and
//! fixes the pagination arithmetic.
//!
//! Filter and sort expressions and the source path are interpolated
//! verbatim: the operator supplying them is in the same trust domain as
//! the process, and a bad expression surfaces as an execution failure,
//! never a build-time one.

use vstd::prelude::*;
use vstd::math::min;
use vstd::string::StringExecFns;
use vstd::arithmetic::div_mod::lemma_fundamental_div_mod;
use vstd::arithmetic::mul::lemma_mul_inequality;
use crate::numtext::{dec_digits, usize_text};

verus! {

/// View of an optional expression string.
pub open spec fn opt_text(o: Option<String>) -> Option<Seq<char>> {
    match o {
        Some(s) => Some(s@),
        None => None,
    }
}

/// The engine-side table expression reading the source file.
pub open spec fn table_expr(path: Seq<char>) -> Seq<char> {
    "read_parquet('"@ + path + "')"@
}

/// The zero-row probe that checks a source is readable.
pub open spec fn probe_query_text(path: Seq<char>) -> Seq<char> {
    "SELECT 1 FROM "@ + table_expr(path) + " LIMIT 0;"@
}

/// The describe-style schema introspection query.
pub open spec fn schema_query_text(path: Seq<char>) -> Seq<char> {
    "DESCRIBE SELECT * FROM "@ + table_expr(path) + ";"@
}

/// The row-count query, honoring the filter when present.
pub open spec fn count_query_text(path: Seq<char>, filter: Option<Seq<char>>) -> Seq<char> {
    "SELECT count(*) FROM "@ + table_expr(path) + (match filter {
        Some(f) => " WHERE "@ + f,
        None => Seq::<char>::empty(),
    }) + ";"@
}

/// The bounded, ordered page query.
pub open spec fn page_query_text(
    path: Seq<char>,
    filter: Option<Seq<char>>,
    sort: Option<Seq<char>>,
    limit: Option<int>,
    offset: Option<int>,
) -> Seq<char> {
    "SELECT * FROM "@ + table_expr(path) + (match filter {
        Some(f) => " WHERE "@ + f,
        None => Seq::<char>::empty(),
    }) + (match sort {
        Some(s) => " ORDER BY "@ + s,
        None => Seq::<char>::empty(),
    }) + (match limit {
        Some(l) => " LIMIT "@ + dec_digits(l),
        None => Seq::<char>::empty(),
    }) + (match offset {
        Some(o) => " OFFSET "@ + dec_digits(o),
        None => Seq::<char>::empty(),
    })
}

fn append_table_expr(q: &mut String, path: &str)
    ensures
        final(q)@ == old(q)@ + table_expr(path@),
{
    q.append("read_parquet('");
    q.append(path);
    q.append("')");
    proof {
        assert(q@ =~= old(q)@ + table_expr(path@));
    }
}

/// Builds the zero-row probe query for `path`.
pub fn build_probe_query(path: &str) -> (q: String)
    ensures
        q@ == probe_query_text(path@),
{
    let mut q = String::from_str("SELECT 1 FROM ");
    append_table_expr(&mut q, path);
    q.append(" LIMIT 0;");
    proof {
        assert(q@ =~= probe_query_text(path@));
    }
    q
}

/// Builds the schema introspection query for `path`.
pub fn build_schema_query(path: &str) -> (q: String)
    ensures
        q@ == schema_query_text(path@),
{
    let mut q = String::from_str("DESCRIBE SELECT * FROM ");
    append_table_expr(&mut q, path);
    q.append(";");
    proof {
        assert(q@ =~= schema_query_text(path@));
    }
    q
}

/// Builds the row-count query for `path` under `filter`.
pub fn build_count_query(path: &str, filter: &Option<String>) -> (q: String)
    ensures
        q@ == count_query_text(path@, opt_text(*filter)),
{
    let mut q = String::from_str("SELECT count(*) FROM ");
    append_table_expr(&mut q, path);
    match filter {
        Some(f) => {
            q.append(" WHERE ");
            q.append(f.as_str());
        },
        None => {},
    }
    q.append(";");
    proof {
        assert(q@ =~= count_query_text(path@, opt_text(*filter)));
    }
    q
}

/// Builds the bounded, ordered page query.
pub fn build_page_query(
    path: &str,
    filter: &Option<String>,
    sort: &Option<String>,
    limit: Option<usize>,
    offset: Option<usize>,
) -> (q: String)
    ensures
        q@ == page_query_text(
            path@,
            opt_text(*filter),
            opt_text(*sort),
            match limit {
                Some(l) => Some(l as int),
                None => None,
            },
            match offset {
                Some(o) => Some(o as int),
                None => None,
            },
        ),
{
    let mut q = String::from_str("SELECT * FROM ");
    append_table_expr(&mut q, path);
    match filter {
        Some(f) => {
            q.append(" WHERE ");
            q.append(f.as_str());
        },
        None => {},
    }
    match sort {
        Some(s) => {
            q.append(" ORDER BY ");
            q.append(s.as_str());
        },
        None => {},
    }
    match limit {
        Some(l) => {
            q.append(" LIMIT ");
            let l_text = usize_text(l);
            q.append(l_text.as_str());
        },
        None => {},
    }
    match offset {
        Some(o) => {
            q.append(" OFFSET ");
            let o_text = usize_text(o);
            q.append(o_text.as_str());
        },
        None => {},
    }
    proof {
        assert(q@ =~= page_query_text(
            path@,
            opt_text(*filter),
            opt_text(*sort),
            match limit {
                Some(l) => Some(l as int),
                None => None,
            },
            match offset {
                Some(o) => Some(o as int),
                None => None,
            },
        ));
    }
    q
}

/// The deterministic offset of a one-based page: page 1 starts at row 0.
pub open spec fn spec_page_offset(page: int, size: int) -> int {
    (page - 1) * size
}

/// Computes a page's row offset; `None` when the page number is zero or
/// the offset cannot be represented.
pub fn checked_page_offset(page: usize, size: usize) -> (r: Option<usize>)
    ensures
        match r {
            Some(o) => page >= 1 && o as int == spec_page_offset(page as int, size as int),
            None => page == 0 || spec_page_offset(page as int, size as int) > usize::MAX as int,
        },
{
    if page == 0 {
        return None;
    }
    let p = page - 1;
    match p.checked_mul(size) {
        Some(o) => Some(o),
        None => None,
    }
}

/// How many pages a source of `total` rows spans at `size` rows per page:
/// the ceiling of their quotient, and at least one page even when empty.
pub open spec fn spec_total_pages(total: int, size: int) -> int {
    if total == 0 {
        1
    } else {
        (total - 1) / size + 1
    }
}

/// Computes the page count of `total` rows at `size` rows per page.
pub fn total_pages(total: usize, size: usize) -> (r: usize)
    requires
        size >= 1,
    ensures
        r as int == spec_total_pages(total as int, size as int),
{
    if total == 0 {
        1
    } else {
        proof {
            lemma_fundamental_div_mod((total - 1) as int, size as int);
            assert((total - 1) as int / size as int <= (total - 1) as int) by (nonlinear_arith)
                requires
                    size as int >= 1,
                    (total - 1) as int >= 0,
            ;
        }
        (total - 1) / size + 1
    }
}

/// The one-based row numbers a page's status line shows: the first row
/// of the window, and the last of the `shown` rows actually displayed.
pub fn display_row_range(page: usize, size: usize, shown: usize) -> (r: (usize, usize))
    requires
        1 <= page,
        spec_page_offset(page as int, size as int) + shown + 1 <= usize::MAX,
    ensures
        r.0 as int == spec_page_offset(page as int, size as int) + 1,
        r.1 as int == spec_page_offset(page as int, size as int) + shown,
{
    let offset = (page - 1) * size;
    (offset + 1, offset + shown)
}

/// The half-open row window of one-based page `k`: it starts at the page
/// offset and holds `size` rows, clipped to the source's `total`.
pub open spec fn row_in_page(r: int, k: int, size: int, total: int) -> bool {
    spec_page_offset(k, size) <= r < spec_page_offset(k, size) + min(
        size,
        total - spec_page_offset(k, size),
    )
}

/// Pagination is complete and non-overlapping: every row index of a source
/// falls in the window of exactly one page, and that page lies between 1
/// and the total page count, so concatenating pages 1 through
/// `spec_total_pages(total, size)` yields every row exactly once.
pub proof fn lemma_pagination_exact(total: int, size: int, r: int)
    requires
        size >= 1,
        0 <= r < total,
    ensures
        row_in_page(r, r / size + 1, size, total),
        forall|k: int| k != r / size + 1 ==> !row_in_page(r, k, size, total),
        1 <= r / size + 1 <= spec_total_pages(total, size),
{
    let k = r / size + 1;
    lemma_fundamental_div_mod(r, size);
    vstd::arithmetic::div_mod::lemma_mod_bound(r, size);
    assert(spec_page_offset(k, size) == (r / size) * size);
    assert(row_in_page(r, k, size, total));
    assert forall|k2: int| k2 != k implies !row_in_page(r, k2, size, total) by {
        vstd::arithmetic::mul::lemma_mul_is_distributive_sub(size, k2, 1);
        vstd::arithmetic::mul::lemma_mul_is_distributive_sub(size, k, 1);
        if k2 < k {
            lemma_mul_inequality(k2, k - 1, size);
            assert(spec_page_offset(k2, size) + size <= spec_page_offset(k, size));
        } else {
            lemma_mul_inequality(k, k2 - 1, size);
            assert(spec_page_offset(k, size) + size <= spec_page_offset(k2, size));
        }
    }
    vstd::arithmetic::div_mod::lemma_div_is_ordered(r, total - 1, size);
}

} // verus!
