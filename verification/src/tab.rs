//! Per-tab state: one open source, its cached schema and row count, the
//! current page window, and the consumption of result messages — with the
//! stale-result check that keeps a late page result from corrupting the
//! page the user has since navigated to.

use vstd::prelude::*;
use vstd::string::{StringExecFns, StrSliceExecFns};
use crate::messages::BackendMessage;
use crate::numtext::{dec_digits, usize_text};
use crate::query::{
    build_page_query, checked_page_offset, opt_text, page_query_text, spec_page_offset,
};

verus! {

/// Path separators recognized when deriving a tab's display name.
pub open spec fn is_sep(c: char) -> bool {
    c == '/' || c == '\\'
}

/// The suffix of `s` after its last path separator; empty when `s` ends
/// with one.
pub open spec fn tail_after_sep(s: Seq<char>) -> Seq<char>
    decreases s.len(),
{
    if s.len() == 0 {
        Seq::<char>::empty()
    } else if is_sep(s.last()) {
        Seq::<char>::empty()
    } else {
        tail_after_sep(s.drop_last()).push(s.last())
    }
}

/// A tab's display name: the file name part of its path, or the whole
/// path when that part is empty.
pub open spec fn display_name_of(path: Seq<char>) -> Seq<char> {
    if tail_after_sep(path).len() == 0 {
        path
    } else {
        tail_after_sep(path)
    }
}

/// ASCII whitespace, as recognized when deciding whether a filter or
/// sort expression is effectively absent.
pub open spec fn is_space_char(c: char) -> bool {
    c == ' ' || c == '\t' || c == '\n' || c == '\r'
}

/// A string that holds no expression: empty or whitespace only.
pub open spec fn is_blank(s: Seq<char>) -> bool {
    forall|i: int| 0 <= i < s.len() ==> is_space_char(#[trigger] s[i])
}

/// An expression field as an optional expression: `None` when blank.
pub open spec fn blank_opt(s: Seq<char>) -> Option<Seq<char>> {
    if is_blank(s) {
        None
    } else {
        Some(s)
    }
}

/// Reduces a free-form expression field to an optional expression: `None`
/// when the text is blank, the text itself otherwise.
pub fn effective_expr(s: &str) -> (r: Option<String>)
    ensures
        match r {
            None => is_blank(s@),
            Some(e) => !is_blank(s@) && e@ == s@,
        },
{
    let len = s.unicode_len();
    let mut i: usize = 0;
    while i < len
        invariant
            i <= len,
            len == s@.len(),
            forall|j: int| 0 <= j < i ==> is_space_char(#[trigger] s@[j]),
        decreases len - i,
    {
        let c = s.get_char(i);
        if !(c == ' ' || c == '\t' || c == '\n' || c == '\r') {
            return Some(s.to_owned());
        }
        i += 1;
    }
    None
}

fn basename(path: &str) -> (r: String)
    ensures
        r@ == display_name_of(path@),
{
    let len = path.unicode_len();
    let mut start: usize = 0;
    let mut i: usize = 0;
    while i < len
        invariant
            i <= len,
            start <= i,
            len == path@.len(),
            tail_after_sep(path@.take(i as int)) == path@.subrange(start as int, i as int),
        decreases len - i,
    {
        let c = path.get_char(i);
        proof {
            assert(path@.take(i as int + 1).drop_last() =~= path@.take(i as int));
            assert(path@.take(i as int + 1).last() == path@[i as int]);
        }
        if c == '/' || c == '\\' {
            start = i + 1;
            proof {
                assert(tail_after_sep(path@.take(i as int + 1)) =~= path@.subrange(
                    i as int + 1,
                    i as int + 1,
                ));
            }
        } else {
            proof {
                assert(tail_after_sep(path@.take(i as int + 1)) =~= path@.subrange(
                    start as int,
                    i as int + 1,
                ));
            }
        }
        i += 1;
    }
    proof {
        assert(path@.take(len as int) =~= path@);
    }
    if start == 0 || start >= len {
        let r = path.to_owned();
        proof {
            assert(path@.subrange(0, len as int) =~= path@);
            if start >= len {
                assert(path@.subrange(len as int, len as int) =~= Seq::<char>::empty());
            }
        }
        r
    } else {
        path.substring_char(start, len).to_owned()
    }
}

/// One open source and everything the view shows of it.
pub struct Tab {
    /// The source's file path; also the tab's routing key.
    pub path: String,
    /// Display name: the file name part of the path.
    pub name: String,
    /// Cached schema, stable for the source's lifetime.
    pub schema: Vec<String>,
    /// The currently displayed page of normalized rows.
    pub data: Vec<Vec<String>>,
    /// Length of `data`.
    pub row_count: usize,
    /// Transient status line.
    pub status: String,
    /// One-based page number currently selected.
    pub current_page: usize,
    /// Rows per page.
    pub page_size: usize,
    /// Total rows of the source under the current filter.
    pub total_rows: usize,
    /// Free-form filter expression text.
    pub filter: String,
    /// Free-form sort expression text.
    pub sort: String,
    /// Last failure text, until dismissed or superseded by success.
    pub last_error: Option<String>,
    /// The query text of the page request in flight, if any: a page
    /// result is accepted only when its executed text matches this.
    pub pending_sql: Option<String>,
}

/// The path a message is routed by, if it names one.
pub open spec fn msg_path(m: BackendMessage) -> Option<Seq<char>> {
    match m {
        BackendMessage::SourceOpened { path } => Some(path@),
        BackendMessage::SchemaResolved { path, .. } => Some(path@),
        BackendMessage::RowCountResolved { path, .. } => Some(path@),
        BackendMessage::PageResolved { path, .. } => Some(path@),
        BackendMessage::Failed { path, .. } => match path {
            Some(p) => Some(p@),
            None => None,
        },
    }
}

/// Whether tab `t` consumes message `m`: the paths must match, and a page
/// result must additionally carry the query text of the request still
/// pending — a stale page result is never consumed.
pub open spec fn accepts(t: Tab, m: BackendMessage) -> bool {
    match m {
        BackendMessage::PageResolved { path, rows, executed_sql } => path@ == t.path@ && (match t
            .pending_sql {
            Some(q) => q@ == executed_sql@,
            None => false,
        }),
        _ => msg_path(m) == Some(t.path@),
    }
}

/// A late page result whose query text is not the one the tab is waiting
/// for is never consumed: stale results cannot corrupt the current page.
pub proof fn lemma_stale_page_discarded(t: Tab, m: BackendMessage)
    requires
        m matches BackendMessage::PageResolved { path, rows, executed_sql } && (match t
            .pending_sql {
            Some(q) => q@ != executed_sql@,
            None => true,
        }),
    ensures
        !accepts(t, m),
{
}

impl Tab {
    /// A freshly opened tab on `path`: first page, a thousand rows per
    /// page, no filter, no sort, nothing loaded yet.
    pub fn new(path: String) -> (t: Tab)
        ensures
            t.path == path,
            t.name@ == display_name_of(path@),
            t.schema@ == Seq::<String>::empty(),
            t.data@ == Seq::<Vec<String>>::empty(),
            t.row_count == 0,
            t.status@ == "Opening..."@,
            t.current_page == 1,
            t.page_size == 1000,
            t.total_rows == 0,
            t.filter@ == Seq::<char>::empty(),
            t.sort@ == Seq::<char>::empty(),
            t.last_error is None,
            t.pending_sql is None,
    {
        let name = basename(path.as_str());
        Tab {
            path,
            name,
            schema: Vec::new(),
            data: Vec::new(),
            row_count: 0,
            status: String::from_str("Opening..."),
            current_page: 1,
            page_size: 1000,
            total_rows: 0,
            filter: String::new(),
            sort: String::new(),
            last_error: None,
            pending_sql: None,
        }
    }

    /// Records that a page request is being dispatched: remembers the
    /// page, shows the loading status, and pins the exact query text the
    /// eventual result must carry to be accepted. Returns false, changing
    /// nothing, when the page number is zero or its offset is not
    /// representable.
    pub fn note_page_request(&mut self, page: usize) -> (r: bool)
        ensures
            r ==> (page >= 1 && final(self).current_page == page && final(self).status@
                == "Loading page "@ + dec_digits(page as int) + "..."@ && (final(self).pending_sql matches Some(q) && q@ == page_query_text(
                old(self).path@,
                blank_opt(old(self).filter@),
                blank_opt(old(self).sort@),
                Some(old(self).page_size as int),
                Some(spec_page_offset(page as int, old(self).page_size as int)),
            )) && final(self).path == old(self).path && final(self).name == old(self).name
                && final(self).schema == old(self).schema && final(self).data == old(self).data
                && final(self).row_count == old(self).row_count && final(self).page_size == old(self).page_size && final(self).total_rows == old(self).total_rows && final(self).filter
                == old(self).filter && final(self).sort == old(self).sort && final(self).last_error == old(self).last_error),
            !r ==> (*final(self) == *old(self) && (page == 0 || spec_page_offset(
                page as int,
                old(self).page_size as int,
            ) > usize::MAX)),
    {
        let offset = match checked_page_offset(page, self.page_size) {
            Some(o) => o,
            None => {
                return false;
            },
        };
        let f = effective_expr(self.filter.as_str());
        let s = effective_expr(self.sort.as_str());
        let q = build_page_query(
            self.path.as_str(),
            &f,
            &s,
            Some(self.page_size),
            Some(offset),
        );
        proof {
            assert(opt_text(f) == blank_opt(self.filter@));
            assert(opt_text(s) == blank_opt(self.sort@));
        }
        self.pending_sql = Some(q);
        self.current_page = page;
        let mut st = String::from_str("Loading page ");
        let page_text = usize_text(page);
        st.append(page_text.as_str());
        st.append("...");
        proof {
            assert(st@ =~= "Loading page "@ + dec_digits(page as int) + "..."@);
        }
        self.status = st;
        true
    }

    /// Consumes one result message. A message for another source, or a
    /// page result whose executed query text is not the pending one, is
    /// discarded and the tab is left exactly as it was.
    pub fn apply_message(&mut self, msg: BackendMessage) -> (applied: bool)
        ensures
            applied == accepts(*old(self), msg),
            !applied ==> *final(self) == *old(self),
            applied ==> (final(self).path == old(self).path && final(self).name == old(self).name
                && final(self).current_page == old(self).current_page && final(self).page_size
                == old(self).page_size && final(self).filter == old(self).filter && final(self).sort == old(self).sort),
            applied ==> (match msg {
                BackendMessage::SourceOpened { .. } => final(self).status@
                    == "File opened, loading schema..."@ && final(self).schema == old(self).schema
                    && final(self).data == old(self).data && final(self).row_count == old(self).row_count && final(self).total_rows == old(self).total_rows && final(self).last_error == old(self).last_error && final(self).pending_sql == old(self).pending_sql,
                BackendMessage::SchemaResolved { columns, .. } => final(self).schema == columns
                    && final(self).status@ == "Schema loaded, running query..."@ && final(self).data == old(self).data && final(self).row_count == old(self).row_count && final(self).total_rows == old(self).total_rows && final(self).last_error == old(self).last_error && final(self).pending_sql == old(self).pending_sql,
                BackendMessage::RowCountResolved { count, .. } => final(self).total_rows == count
                    && final(self).status@.len() == 0 && final(self).schema == old(self).schema
                    && final(self).data == old(self).data && final(self).row_count == old(self).row_count && final(self).last_error == old(self).last_error && final(self).pending_sql == old(self).pending_sql,
                BackendMessage::PageResolved { rows, .. } => final(self).data == rows && final(self).row_count == rows@.len() && final(self).status@.len() == 0 && final(self).pending_sql is None && final(self).last_error is None && final(self).schema
                    == old(self).schema && final(self).total_rows == old(self).total_rows,
                BackendMessage::Failed { message, .. } => (final(self).last_error matches Some(e)
                    && e@ == message@) && final(self).status@ == "Query failed"@ && final(self).schema == old(self).schema && final(self).data == old(self).data && final(self).row_count == old(self).row_count && final(self).total_rows == old(self).total_rows && final(self).pending_sql == old(self).pending_sql,
            }),
    {
        match msg {
            BackendMessage::SourceOpened { path } => {
                if !path.eq(&self.path) {
                    return false;
                }
                self.status = String::from_str("File opened, loading schema...");
                true
            },
            BackendMessage::SchemaResolved { path, columns } => {
                if !path.eq(&self.path) {
                    return false;
                }
                self.schema = columns;
                self.status = String::from_str("Schema loaded, running query...");
                true
            },
            BackendMessage::RowCountResolved { path, count, executed_sql: _ } => {
                if !path.eq(&self.path) {
                    return false;
                }
                self.total_rows = count;
                self.status = String::new();
                true
            },
            BackendMessage::PageResolved { path, rows, executed_sql } => {
                if !path.eq(&self.path) {
                    return false;
                }
                let fresh = match &self.pending_sql {
                    Some(q) => q.eq(&executed_sql),
                    None => false,
                };
                if !fresh {
                    return false;
                }
                let n = rows.len();
                self.data = rows;
                self.row_count = n;
                self.status = String::new();
                self.pending_sql = None;
                self.last_error = None;
                true
            },
            BackendMessage::Failed { path, message, executed_sql: _ } => {
                match path {
                    Some(p) => {
                        if !p.eq(&self.path) {
                            return false;
                        }
                        self.last_error = Some(message);
                        self.status = String::from_str("Query failed");
                        true
                    },
                    None => false,
                }
            },
        }
    }

    /// Clears the error flag, as the user's explicit dismissal does.
    pub fn dismiss_error(&mut self)
        ensures
            final(self).last_error is None,
            final(self).path == old(self).path && final(self).name == old(self).name && final(self).schema == old(self).schema && final(self).data == old(self).data && final(self).row_count == old(self).row_count && final(self).status == old(self).status && final(self).current_page == old(self).current_page && final(self).page_size == old(self).page_size && final(self).total_rows == old(self).total_rows && final(self).filter
                == old(self).filter && final(self).sort == old(self).sort && final(self).pending_sql == old(self).pending_sql,
    {
        self.last_error = None;
    }

    /// The text shown on the tab's button: the display name, shortened to
    /// its first 17 characters plus an ellipsis when longer than 20.
    pub fn title(&self) -> (r: String)
        ensures
            self.name@.len() > 20 ==> r@ == self.name@.subrange(0, 17) + "..."@,
            self.name@.len() <= 20 ==> r@ == self.name@,
    {
        let len = self.name.as_str().unicode_len();
        if len > 20 {
            let mut r = self.name.as_str().substring_char(0, 17).to_owned();
            r.append("...");
            r
        } else {
            self.name.clone()
        }
    }
}

} // verus!
