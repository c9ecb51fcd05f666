use vstd::prelude::*;

verus! {

/// The character standing for the decimal digit `d`.
pub open spec fn digit_char(d: nat) -> char
    recommends
        d < 10,
{
    if d == 0 {
        '0'
    } else if d == 1 {
        '1'
    } else if d == 2 {
        '2'
    } else if d == 3 {
        '3'
    } else if d == 4 {
        '4'
    } else if d == 5 {
        '5'
    } else if d == 6 {
        '6'
    } else if d == 7 {
        '7'
    } else if d == 8 {
        '8'
    } else {
        '9'
    }
}

/// The decimal numeral of `n`, most significant digit first, with no leading
/// zeros: the text that formatting a `usize` produces.
pub open spec fn decimal(n: nat) -> Seq<char>
    decreases n,
{
    if n < 10 {
        seq![digit_char(n)]
    } else {
        decimal(n / 10).push(digit_char(n % 10))
    }
}

/// The Postgres placeholder for the parameter bound in position `n`, counted
/// from one: `$n`.
pub open spec fn placeholder(n: nat) -> Seq<char> {
    seq!['$'] + decimal(n)
}

/// The comma-separated placeholders for `n` parameters bound after `start`
/// parameters already stand in the statement: `$start+1, ..., $start+n`.
pub open spec fn placeholder_run(start: nat, n: nat) -> Seq<char>
    decreases n,
{
    if n == 0 {
        Seq::empty()
    } else if n == 1 {
        placeholder(start + 1)
    } else {
        placeholder_run(start, (n - 1) as nat) + ", "@ + placeholder(start + n)
    }
}

/// The items joined by a comma and a space.
pub open spec fn comma_join(items: Seq<Seq<char>>) -> Seq<char>
    decreases items.len(),
{
    if items.len() == 0 {
        Seq::empty()
    } else if items.len() == 1 {
        items[0]
    } else {
        comma_join(items.drop_last()) + ", "@ + items.last()
    }
}

/// The total number of parameters of rows with the given lengths.
pub open spec fn total_len(lens: Seq<nat>) -> nat
    decreases lens.len(),
{
    if lens.len() == 0 {
        0
    } else {
        total_len(lens.drop_last()) + lens.last()
    }
}

/// The comma-separated parenthesized placeholder groups of a multi-row VALUES
/// clause, one group per row, numbering the placeholders onward from `start`.
pub open spec fn values_groups(start: nat, lens: Seq<nat>) -> Seq<char>
    decreases lens.len(),
{
    if lens.len() == 0 {
        Seq::empty()
    } else {
        let head = values_groups(start, lens.drop_last());
        let sep: Seq<char> = if lens.len() == 1 {
            Seq::empty()
        } else {
            ", "@
        };
        head + sep + seq!['('] + placeholder_run(start + total_len(lens.drop_last()), lens.last())
            + seq![')']
    }
}

/// The text of a multi-row VALUES clause for rows with the given lengths, when
/// `start` parameters already stand in the statement.
pub open spec fn values_clause(start: nat, lens: Seq<nat>) -> Seq<char> {
    "VALUES "@ + values_groups(start, lens)
}

/// The text of an IN list with a leading space: ` in ($start+1, ...) `.
pub open spec fn in_list_text(start: nat, n: nat) -> Seq<char> {
    " in ("@ + placeholder_run(start, n) + ") "@
}

/// The text of an IN list without a leading space: `in ($start+1, ...) `.
pub open spec fn in_list_fn_text(start: nat, n: nat) -> Seq<char> {
    "in ("@ + placeholder_run(start, n) + ") "@
}

/// The views of a sequence of rows of bound values, row by row.
pub open spec fn rows_view(rows: Seq<Vec<String>>) -> Seq<Seq<Seq<char>>> {
    rows.map_values(|r: Vec<String>| r@.map_values(|s: String| s@))
}

/// The lengths of the given rows.
pub open spec fn row_lens(rows: Seq<Seq<Seq<char>>>) -> Seq<nat> {
    rows.map_values(|r: Seq<Seq<char>>| r.len())
}

} // verus!

