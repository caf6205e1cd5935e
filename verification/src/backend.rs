//! The execution engine's decision core: what each of the four engine
//! operations (open, schema, row count, page fetch) makes of the raw
//! values the analytical connection hands back.
//!
//! The connection itself lives with the embedded engine outside this
//! library; an adapter runs the query text built by [`crate::query`] and
//! passes each outcome here, where the bounded materialization, the
//! safety cap and the normalization of every cell are enforced and
//! proved. Any engine failure arrives as opaque error text and is passed
//! through unchanged, never retried.

use vstd::prelude::*;
use vstd::math::min;
use vstd::string::StringExecFns;
use crate::cell::{CellValue, column_name, column_name_of, normalize, spec_normalize};
use crate::messages::BackendMessage;
use crate::query::{build_page_query, opt_text, page_query_text};

verus! {

/// Hard upper bound on rows materialized by a single page request, even
/// when no explicit limit is given.
pub const DEFAULT_ROW_CAP: usize = 50000;

/// The execution engine core. It owns the retrieval policy (row cap) and
/// the interpretation of engine results; exactly one query is in flight
/// against the shared connection at a time, which the adapter enforces by
/// holding the engine under an exclusive lock.
pub struct Backend {
    /// The safety cap applied to every page materialization.
    pub cap: usize,
}

/// View of an optional row limit.
pub open spec fn opt_int(o: Option<usize>) -> Option<int> {
    match o {
        Some(l) => Some(l as int),
        None => None,
    }
}

/// How many rows a page request may materialize: the lesser of the
/// requested limit and the safety cap; the cap alone when no limit is
/// given.
pub open spec fn spec_row_cap(limit: Option<int>, cap: int) -> int {
    match limit {
        Some(l) => min(l, cap),
        None => cap,
    }
}

/// A fetched grid of cells, as a sequence of rows.
pub open spec fn grid_view(cells: Seq<Vec<CellValue>>) -> Seq<Seq<CellValue>> {
    cells.map_values(|r: Vec<CellValue>| r@)
}

/// A materialized page, down to the characters of every cell.
pub open spec fn texts_view(rows: Seq<Vec<String>>) -> Seq<Seq<Seq<char>>> {
    rows.map_values(|r: Vec<String>| r@.map_values(|s: String| s@))
}

/// The column count of a page: discovered from the first returned row,
/// not trusted from any schema cache.
pub open spec fn first_width(cells: Seq<Seq<CellValue>>) -> int {
    if cells.len() > 0 {
        cells[0].len() as int
    } else {
        0
    }
}

/// Every materialized row must be at least as wide as the first row.
pub open spec fn page_shape_ok(cells: Seq<Seq<CellValue>>, rcap: int) -> bool {
    forall|i: int|
        0 <= i < min(rcap, cells.len() as int) ==> (#[trigger] cells[i]).len() >= first_width(
            cells,
        )
}

/// The rows a page materializes to: the fetched rows up to the row cap,
/// each cut to the first row's width, each cell normalized to text.
pub open spec fn page_rows_of(cells: Seq<Seq<CellValue>>, rcap: int) -> Seq<Seq<Seq<char>>> {
    Seq::new(
        min(rcap, cells.len() as int) as nat,
        |i: int| Seq::new(first_width(cells) as nat, |j: int| spec_normalize(cells[i][j])),
    )
}

impl Backend {
    /// A fresh engine core with the default safety cap.
    pub fn new() -> (b: Backend)
        ensures
            b.cap == DEFAULT_ROW_CAP,
    {
        Backend { cap: DEFAULT_ROW_CAP }
    }

    /// Interprets the outcome of the zero-row probe on `path`: success
    /// means the source is readable and becomes `SourceOpened`; the
    /// engine's error text is passed through otherwise.
    pub fn open_file(&self, path: String, probe: Result<(), String>) -> (r: Result<
        BackendMessage,
        String,
    >)
        ensures
            probe is Ok ==> (r matches Ok(m) && m matches BackendMessage::SourceOpened {
                path: p,
            } && p == path),
            probe matches Err(e) ==> (r matches Err(e2) && e2 == e),
    {
        match probe {
            Ok(_) => Ok(BackendMessage::SourceOpened { path }),
            Err(e) => Err(e),
        }
    }

    /// Turns the name column of a describe result into the schema
    /// message, preserving the engine-reported column order.
    pub fn get_schema(&self, path: String, names_col: Result<Vec<CellValue>, String>) -> (r:
        Result<BackendMessage, String>)
        ensures
            names_col matches Ok(cells) ==> (r matches Ok(m) && m
                matches BackendMessage::SchemaResolved { path: p, columns } && p == path
                && columns@.len() == cells@.len() && (forall|i: int|
                0 <= i < cells@.len() ==> (#[trigger] columns@[i])@ == column_name_of(cells@[i]))),
            names_col matches Err(e) ==> (r matches Err(e2) && e2 == e),
    {
        match names_col {
            Err(e) => Err(e),
            Ok(cells) => {
                let mut columns: Vec<String> = Vec::new();
                let mut i: usize = 0;
                while i < cells.len()
                    invariant
                        i <= cells.len(),
                        columns@.len() == i,
                        forall|ii: int|
                            0 <= ii < i ==> (#[trigger] columns@[ii])@ == column_name_of(
                                cells@[ii],
                            ),
                    decreases cells.len() - i,
                {
                    columns.push(column_name(&cells[i]));
                    i += 1;
                }
                Ok(BackendMessage::SchemaResolved { path, columns })
            },
        }
    }

    /// Reads the row count from the first cell of a count query's result:
    /// a non-negative integer, clamped to the machine's range; 0 when the
    /// engine returned no row.
    pub fn get_row_count(&self, first_cell: Result<Option<CellValue>, String>) -> (r: Result<
        usize,
        String,
    >)
        ensures
            first_cell matches Ok(c) ==> (r matches Ok(n) && n as int == min(
                count_of(c),
                usize::MAX as int,
            )),
            first_cell matches Err(e) ==> (r matches Err(e2) && e2 == e),
    {
        match first_cell {
            Err(e) => Err(e),
            Ok(c) => match c {
                Some(CellValue::Int(i)) => {
                    if i < 0 {
                        Ok(0)
                    } else if i > usize::MAX as i128 {
                        Ok(usize::MAX)
                    } else {
                        Ok(i as usize)
                    }
                },
                Some(CellValue::UInt(u)) => {
                    if u > usize::MAX as u128 {
                        Ok(usize::MAX)
                    } else {
                        Ok(u as usize)
                    }
                },
                _ => Ok(0),
            },
        }
    }

    /// Materializes one fetched page: at most the lesser of the requested
    /// limit and the safety cap rows, the column count taken from the
    /// first returned row, every cell normalized to display text, and the
    /// executed query text carried along for audit and stale-result
    /// checks. A row narrower than the first is an execution failure.
    pub fn run_query(
        &self,
        path: String,
        filter: &Option<String>,
        sort: &Option<String>,
        limit: Option<usize>,
        offset: Option<usize>,
        fetched: Result<Vec<Vec<CellValue>>, String>,
    ) -> (r: Result<BackendMessage, String>)
        ensures
            fetched matches Err(e) ==> (r matches Err(e2) && e2 == e),
            fetched matches Ok(cells) ==> (page_shape_ok(
                grid_view(cells@),
                spec_row_cap(opt_int(limit), self.cap as int),
            ) ==> (r matches Ok(m) && m matches BackendMessage::PageResolved {
                path: p,
                rows,
                executed_sql,
            } && p == path && executed_sql@ == page_query_text(
                path@,
                opt_text(*filter),
                opt_text(*sort),
                opt_int(limit),
                opt_int(offset),
            ) && texts_view(rows@) == page_rows_of(
                grid_view(cells@),
                spec_row_cap(opt_int(limit), self.cap as int),
            ))),
            fetched matches Ok(cells) ==> (!page_shape_ok(
                grid_view(cells@),
                spec_row_cap(opt_int(limit), self.cap as int),
            ) ==> (r matches Err(e2) && e2@ == "page row narrower than first row"@)),
    {
        let sql = build_page_query(path.as_str(), filter, sort, limit, offset);
        match fetched {
            Err(e) => Err(e),
            Ok(cells) => {
                let ghost g = grid_view(cells@);
                let rcap: usize = match limit {
                    Some(l) => if l < self.cap {
                        l
                    } else {
                        self.cap
                    },
                    None => self.cap,
                };
                let n: usize = if cells.len() < rcap {
                    cells.len()
                } else {
                    rcap
                };
                let width: usize = if cells.len() > 0 {
                    cells[0].len()
                } else {
                    0
                };
                proof {
                    assert(rcap as int == spec_row_cap(opt_int(limit), self.cap as int));
                    assert(n as int == min(rcap as int, g.len() as int));
                    assert(width as int == first_width(g));
                }
                let mut rows: Vec<Vec<String>> = Vec::new();
                let mut i: usize = 0;
                while i < n
                    invariant
                        i <= n,
                        fetched == Result::<Vec<Vec<CellValue>>, String>::Ok(cells),
                        rcap as int == spec_row_cap(opt_int(limit), self.cap as int),
                        g == grid_view(cells@),
                        n as int == min(rcap as int, g.len() as int),
                        width as int == first_width(g),
                        rows@.len() == i,
                        forall|ii: int|
                            0 <= ii < i ==> (#[trigger] g[ii]).len() >= width,
                        forall|ii: int|
                            0 <= ii < i ==> (#[trigger] rows@[ii])@.len() == width,
                        forall|ii: int, j: int|
                            0 <= ii < i && 0 <= j < width ==> (#[trigger] rows@[ii]@[j])@
                                == spec_normalize(g[ii][j]),
                    decreases n - i,
                {
                    if cells[i].len() < width {
                        proof {
                            assert(g[i as int] == cells@[i as int]@);
                            assert((i as int) < min(rcap as int, g.len() as int));
                            assert(g[i as int].len() < first_width(g));
                            assert(!page_shape_ok(g, rcap as int));
                        }
                        return Err(String::from_str("page row narrower than first row"));
                    }
                    let mut out: Vec<String> = Vec::new();
                    let mut j: usize = 0;
                    while j < width
                        invariant
                            j <= width,
                            g == grid_view(cells@),
                            0 <= i < g.len(),
                            width <= g[i as int].len(),
                            i < cells@.len(),
                            out@.len() == j,
                            forall|jj: int|
                                0 <= jj < j ==> ((#[trigger] out@[jj])@) == spec_normalize(
                                    g[i as int][jj],
                                ),
                        decreases width - j,
                    {
                        out.push(normalize(&cells[i][j]));
                        j += 1;
                    }
                    rows.push(out);
                    i += 1;
                }
                proof {
                    assert(page_shape_ok(g, rcap as int));
                    assert(texts_view(rows@) =~~= page_rows_of(
                        g,
                        spec_row_cap(opt_int(limit), self.cap as int),
                    ));
                }
                Ok(BackendMessage::PageResolved { path, rows, executed_sql: sql })
            },
        }
    }
}

/// The integer a count cell denotes: a non-negative signed or unsigned
/// integer; anything else counts as zero.
pub open spec fn count_of(c: Option<CellValue>) -> int {
    match c {
        Some(CellValue::Int(i)) => if i >= 0 {
            i as int
        } else {
            0
        },
        Some(CellValue::UInt(u)) => u as int,
        _ => 0,
    }
}

/// Issuing the same (source, filter, sort, page window) request twice with
/// no intervening data change yields byte-identical output: the query text
/// built is the same, and equal engine replies materialize to equal pages.
pub proof fn lemma_request_idempotent(
    path: Seq<char>,
    filter: Option<Seq<char>>,
    sort: Option<Seq<char>>,
    limit: Option<int>,
    offset: Option<int>,
    cells1: Seq<Seq<CellValue>>,
    cells2: Seq<Seq<CellValue>>,
    rcap: int,
)
    requires
        cells1 == cells2,
    ensures
        page_query_text(path, filter, sort, limit, offset) == page_query_text(
            path,
            filter,
            sort,
            limit,
            offset,
        ),
        page_rows_of(cells1, rcap) == page_rows_of(cells2, rcap),
{
}

/// A materialized page holds `min(limit, fetched, cap)` rows: when the
/// engine returns the rows remaining after the offset, that is
/// `min(page_size, remaining_rows_after_offset, safety_cap)`.
pub proof fn lemma_page_row_count(cells: Seq<Seq<CellValue>>, limit: int, cap: int)
    requires
        0 <= limit,
        0 <= cap,
    ensures
        page_rows_of(cells, spec_row_cap(Some(limit), cap)).len() == min(
            limit,
            min(cells.len() as int, cap),
        ),
{
}

} // verus!
