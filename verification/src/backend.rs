use vstd::prelude::*;

use crate::text::{placeholder, row_lens, rows_view, values_clause};

verus! {

/// One parameterized statement under assembly: sqlx's query builder for the
/// Postgres backend, holding the SQL text and the values bound so far. The
/// verifier treats the builder as opaque and speaks of its contents through
/// `statement_text` and `statement_params` alone. The field is public so that
/// unverified callers can hand the finished statement to sqlx for execution;
/// nothing verified reads it.
#[verifier::external_body]
pub struct StatementBuffer {
    pub inner: sqlx::QueryBuilder<sqlx::Postgres>,
}

/// The SQL text a statement buffer has accumulated so far.
pub uninterp spec fn statement_text(qb: StatementBuffer) -> Seq<char>;

/// The values a statement buffer has bound so far, in binding order.
pub uninterp spec fn statement_params(qb: StatementBuffer) -> Seq<Seq<char>>;

/// Whether the buffer still owns its argument list and its query string
/// exclusively. It does from creation until sqlx's `build` takes the list;
/// the appending methods of sqlx panic after that point, so every appending
/// wrapper here demands it. (Reading the text with `sql` clones the string
/// only for the returned value, so it keeps the buffer ready.)
pub uninterp spec fn ready(qb: StatementBuffer) -> bool;

/// The longest bound value, in characters, that sqlx's binary protocol is
/// sure to accept: a character encodes to at most four UTF-8 bytes, and sqlx
/// refuses (and the builder then panics on) a value whose encoded size
/// exceeds `i32::MAX` bytes, so values this short can always be bound.
pub const MAX_BIND_LEN: usize = 0x1FFF_FFFF;

/// Whether one value is short enough to bind.
pub open spec fn bindable(value: Seq<char>) -> bool {
    value.len() <= MAX_BIND_LEN
}

/// Whether every value of every row is short enough to bind.
pub open spec fn rows_bindable(rows: Seq<Seq<Seq<char>>>) -> bool {
    forall|i: int, j: int|
        0 <= i < rows.len() && 0 <= j < rows[i].len() ==> bindable(#[trigger] rows[i][j])
}

/// The spec-level views of one statement buffer, so that contracts can speak
/// of its text and bound values uniformly.
pub trait StatementView {
    spec fn text_view(&self) -> Seq<char>;

    spec fn params_view(&self) -> Seq<Seq<char>>;

    spec fn ready_view(&self) -> bool;
}

impl StatementView for StatementBuffer {
    open spec fn text_view(&self) -> Seq<char> {
        statement_text(*self)
    }

    open spec fn params_view(&self) -> Seq<Seq<char>> {
        statement_params(*self)
    }

    open spec fn ready_view(&self) -> bool {
        ready(*self)
    }
}

impl StatementBuffer {
    /// Relies on sqlx's QueryBuilder::sql: returns the statement text
    /// accumulated so far.
    #[verifier::external_body]
    pub fn sql(&self) -> (r: String)
        ensures
            r@ == statement_text(*self),
    {
        self.inner.sql().as_str().to_string()
    }
}

/// Relies on sqlx's QueryBuilder::new: the fresh builder holds exactly the
/// initial fragment, has bound nothing, and owns its argument list.
#[verifier::external_body]
pub(crate) fn qb_new(init: &str) -> (r: StatementBuffer)
    ensures
        statement_text(r) == init@,
        statement_params(r) == Seq::<Seq<char>>::empty(),
        ready(r),
{
    StatementBuffer { inner: sqlx::QueryBuilder::new(init) }
}

/// Relies on sqlx's QueryBuilder::push: appends the fragment verbatim to the
/// statement text and binds nothing.
#[verifier::external_body]
pub(crate) fn qb_push(qb: &mut StatementBuffer, fragment: &str)
    requires
        ready(*old(qb)),
    ensures
        ready(*final(qb)),
        statement_text(*final(qb)) == statement_text(*old(qb)) + fragment@,
        statement_params(*final(qb)) == statement_params(*old(qb)),
{
    qb.inner.push(fragment);
}

/// Relies on sqlx's QueryBuilder::push_bind on Postgres: adds the value to the
/// argument list and appends the placeholder `$N`, where `N` is the new number
/// of bound values. Encoding a `String` for Postgres fails (and the builder
/// panics) only when its UTF-8 length exceeds `i32::MAX` bytes; the length
/// bound demanded here rules that out.
#[verifier::external_body]
pub(crate) fn qb_push_bind(qb: &mut StatementBuffer, value: String)
    requires
        ready(*old(qb)),
        bindable(value@),
    ensures
        ready(*final(qb)),
        statement_text(*final(qb)) == statement_text(*old(qb)) + placeholder(
            statement_params(*old(qb)).len() + 1,
        ),
        statement_params(*final(qb)) == statement_params(*old(qb)).push(value@),
{
    qb.inner.push_bind(value);
}

/// Relies on sqlx's QueryBuilder::push_values on Postgres: appends `VALUES `
/// and one parenthesized, comma-separated group of `$N` placeholders per row,
/// the groups comma-separated, binding every value of every row in order. Its
/// debug assertion rejects an empty row list, and binding a value longer than
/// `i32::MAX` bytes panics, so both are demanded away here.
#[verifier::external_body]
pub(crate) fn qb_push_values(qb: &mut StatementBuffer, rows: Vec<Vec<String>>)
    requires
        ready(*old(qb)),
        rows@.len() > 0,
        rows_bindable(rows_view(rows@)),
    ensures
        ready(*final(qb)),
        statement_text(*final(qb)) == statement_text(*old(qb)) + values_clause(
            statement_params(*old(qb)).len(),
            row_lens(rows_view(rows@)),
        ),
        statement_params(*final(qb)) == statement_params(*old(qb)) + rows_view(rows@).flatten(),
{
    qb.inner.push_values(rows, |mut group, row| {
        for value in row {
            group.push_bind(value);
        }
    });
}

} // verus!
