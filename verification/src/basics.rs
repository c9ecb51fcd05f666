use vstd::prelude::*;

use crate::backend::{bindable, qb_push, qb_push_values, rows_bindable, StatementBuffer, StatementView};
use crate::projectors::FromEntity;
use crate::text::{comma_join, row_lens, rows_view, values_clause};
use crate::{row_of, DatabaseUtilities};
use vstd::string::StringExecFns;

verus! {

/// One operation per SQL clause shape, each appending its fragment to the
/// statement buffer. The fixed-shape clauses bind nothing; `value` binds one
/// row's values through the row type's metadata.
pub trait DatabaseBuilderExtensions: StatementView + Sized {
    /// Appends the fragment verbatim.
    fn query(&mut self, fragment: &str)
        requires
            old(self).ready_view(),
        ensures
            final(self).ready_view(),
            final(self).text_view() == old(self).text_view() + fragment@,
            final(self).params_view() == old(self).params_view(),
    ;

    /// Appends `SELECT {cols} `.
    fn select(&mut self, cols: &str)
        requires
            old(self).ready_view(),
        ensures
            final(self).ready_view(),
            final(self).text_view() == old(self).text_view() + "SELECT "@ + cols@ + " "@,
            final(self).params_view() == old(self).params_view(),
    ;

    /// Appends `FROM {table} `.
    fn from(&mut self, table: &str)
        requires
            old(self).ready_view(),
        ensures
            final(self).ready_view(),
            final(self).text_view() == old(self).text_view() + "FROM "@ + table@ + " "@,
            final(self).params_view() == old(self).params_view(),
    ;

    /// Appends `INSERT INTO {table} `.
    fn insert_into(&mut self, table: &str)
        requires
            old(self).ready_view(),
        ensures
            final(self).ready_view(),
            final(self).text_view() == old(self).text_view() + "INSERT INTO "@ + table@ + " "@,
            final(self).params_view() == old(self).params_view(),
    ;

    /// Appends the parenthesized, comma-joined column list `(c1, c2) `.
    fn cols(&mut self, columns: &Vec<String>)
        requires
            old(self).ready_view(),
        ensures
            final(self).ready_view(),
            final(self).text_view() == old(self).text_view() + "("@ + comma_join(
                columns@.map_values(|c: String| c@),
            ) + ") "@,
            final(self).params_view() == old(self).params_view(),
    ;

    /// Appends a single-row VALUES clause, binding the row form of `value`.
    fn value<Value, DbValue>(&mut self, value: Value) where
        DbValue: FromEntity<Value> + DatabaseUtilities<DbValue>,

        requires
            old(self).ready_view(),
        ensures
            final(self).ready_view(),
            final(self).text_view() == old(self).text_view() + values_clause(
                old(self).params_view().len(),
                seq![row_of::<Value, DbValue>(value).len()],
            ),
            final(self).params_view() == old(self).params_view() + row_of::<Value, DbValue>(value),
    ;

    /// Appends `DELETE FROM {table} `.
    fn delete_from(&mut self, table: &str)
        requires
            old(self).ready_view(),
        ensures
            final(self).ready_view(),
            final(self).text_view() == old(self).text_view() + "DELETE FROM "@ + table@ + " "@,
            final(self).params_view() == old(self).params_view(),
    ;
}

impl DatabaseBuilderExtensions for StatementBuffer {
    fn query(&mut self, fragment: &str) {
        qb_push(self, fragment);
    }

    fn select(&mut self, cols: &str) {
        let mut text = String::from_str("SELECT ");
        text.append(cols);
        text.append(" ");
        qb_push(self, text.as_str());
    }

    fn from(&mut self, table: &str) {
        let mut text = String::from_str("FROM ");
        text.append(table);
        text.append(" ");
        qb_push(self, text.as_str());
    }

    fn insert_into(&mut self, table: &str) {
        let mut text = String::from_str("INSERT INTO ");
        text.append(table);
        text.append(" ");
        qb_push(self, text.as_str());
    }

    fn cols(&mut self, columns: &Vec<String>) {
        let ghost names = columns@.map_values(|c: String| c@);
        let mut text = String::from_str("(");
        let mut i: usize = 0;
        while i < columns.len()
            invariant
                i <= columns@.len(),
                names == columns@.map_values(|c: String| c@),
                text@ == "("@ + comma_join(names.take(i as int)),
            decreases columns@.len() - i,
        {
            if i != 0 {
                text.append(", ");
            }
            text.append(columns[i].as_str());
            proof {
                assert(names.take(i + 1).drop_last() =~= names.take(i as int));
                assert(names.take(i + 1).last() == names[i as int]);
            }
            i = i + 1;
        }
        proof {
            assert(names.take(names.len() as int) =~= names);
        }
        text.append(") ");
        qb_push(self, text.as_str());
    }

    fn value<Value, DbValue>(&mut self, value: Value) where
        DbValue: FromEntity<Value> + DatabaseUtilities<DbValue>,
     {
        let db_value = DbValue::from_entity(value);
        let row = DbValue::row_values(&db_value);
        let rows = vec![row];
        proof {
            assert(rows_view(rows@) =~= seq![row_of::<Value, DbValue>(value)]);
            rows_view(rows@).lemma_flatten_one_element();
            assert(rows_view(rows@).flatten() == row_of::<Value, DbValue>(value));
            assert(row_lens(rows_view(rows@)) =~= seq![row_of::<Value, DbValue>(value).len()]);
            assert forall|i: int, j: int|
                0 <= i < rows_view(rows@).len() && 0 <= j < rows_view(rows@)[i].len() implies bindable(
                #[trigger] rows_view(rows@)[i][j],
            ) by {
                assert(rows_view(rows@)[i][j] == row@[j]@);
            }
        }
        qb_push_values(self, rows);
    }

    fn delete_from(&mut self, table: &str) {
        let mut text = String::from_str("DELETE FROM ");
        text.append(table);
        text.append(" ");
        qb_push(self, text.as_str());
    }
}

} // verus!
