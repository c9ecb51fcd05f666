pub mod backend;
pub mod basics;
pub mod in_items;
pub mod projectors;
pub mod text;
pub mod values;

use vstd::prelude::*;

use crate::backend::{bindable, qb_new, statement_text, StatementBuffer, StatementView};
use crate::projectors::{FromEntity, ToDatabase, ToEntity};

verus! {

/// The static, per-row-type metadata the partitioner consumes: a table name,
/// the ordered column names, and the bound values one row contributes. The
/// values a row contributes must be exactly one per column, in column order,
/// and each short enough to bind (see `MAX_BIND_LEN`); both are demanded of
/// every implementation here, at the contract level, rather than checked per
/// call.
pub trait DatabaseUtilities<DbEntity> {
    /// The table name, at the spec level. Verified implementations override
    /// this and the two spec functions below to say what their executable
    /// counterparts return; for an implementation the verifier never sees,
    /// they stay unspecified.
    open spec fn spec_table_name() -> Seq<char> {
        arbitrary()
    }

    open spec fn spec_column_names() -> Seq<Seq<char>> {
        arbitrary()
    }

    open spec fn spec_row_values(e: DbEntity) -> Seq<Seq<char>> {
        arbitrary()
    }

    fn table_name() -> (r: String)
        ensures
            r@ == Self::spec_table_name(),
    ;

    fn column_names() -> (r: Vec<String>)
        ensures
            r@.map_values(|c: String| c@) == Self::spec_column_names(),
    ;

    fn row_values(e: &DbEntity) -> (r: Vec<String>)
        ensures
            r@.map_values(|v: String| v@) == Self::spec_row_values(*e),
            r@.len() == Self::spec_column_names().len(),
            forall|i: int| 0 <= i < r@.len() ==> bindable(#[trigger] r@[i]@),
    ;
}

impl<Entity, DbEntity> DatabaseUtilities<DbEntity> for Entity where
    Entity: ToDatabase<DbEntity = DbEntity>,
    DbEntity: DatabaseUtilities<DbEntity> + FromEntity<Entity> + ToEntity<Entity>,
 {
    open spec fn spec_table_name() -> Seq<char> {
        DbEntity::spec_table_name()
    }

    open spec fn spec_column_names() -> Seq<Seq<char>> {
        DbEntity::spec_column_names()
    }

    open spec fn spec_row_values(e: DbEntity) -> Seq<Seq<char>> {
        DbEntity::spec_row_values(e)
    }

    fn table_name() -> (r: String) {
        DbEntity::table_name()
    }

    fn column_names() -> (r: Vec<String>) {
        DbEntity::column_names()
    }

    fn row_values(e: &DbEntity) -> (r: Vec<String>) {
        DbEntity::row_values(e)
    }
}

/// The bound values the row form of `e` contributes to a statement.
pub open spec fn row_of<Entity, DbEntity>(e: Entity) -> Seq<Seq<char>> where
    DbEntity: DatabaseUtilities<DbEntity> + FromEntity<Entity>,
 {
    DbEntity::spec_row_values(DbEntity::spec_from_entity(e))
}

/// A fresh, empty statement builder for the Postgres backend.
pub fn builder() -> (r: StatementBuffer)
    ensures
        r.text_view() == Seq::<char>::empty(),
        r.params_view() == Seq::<Seq<char>>::empty(),
        r.ready_view(),
{
    let qb = qb_new("");
    proof {
        reveal_strlit("");
        assert(statement_text(qb) =~= Seq::<char>::empty());
    }
    qb
}

/// The chunk the dispatcher reports as failed: its position in the statement
/// list and the backend's message.
pub struct ChunkFailure {
    pub chunk_index: usize,
    pub message: String,
}

/// Joins the per-chunk execution outcomes into the one terminal result: full
/// success only if every chunk succeeded, otherwise the first failure
/// encountered, identifying the failed chunk. Outcomes of chunks after the
/// first failed one are neither suppressed nor reverted by this layer; they
/// simply do not change the aggregate.
#[verifier::loop_isolation(false)]
pub fn join_outcomes(outcomes: Vec<Result<(), String>>) -> (r: Result<(), ChunkFailure>)
    ensures
        r is Ok <==> (forall|i: int| 0 <= i < outcomes@.len() ==> outcomes@[i] is Ok),
        r is Err ==> {
            let f = r->Err_0;
            &&& f.chunk_index < outcomes@.len()
            &&& outcomes@[f.chunk_index as int] is Err
            &&& f.message == outcomes@[f.chunk_index as int]->Err_0
            &&& forall|j: int| 0 <= j < f.chunk_index ==> outcomes@[j] is Ok
        },
{
    let ghost all = outcomes@;
    let mut rest = outcomes;
    let total = rest.len();
    let mut index: usize = 0;
    while rest.len() > 0
        invariant
            all.len() == total,
            index + rest@.len() == all.len(),
            rest@ == all.skip(index as int),
            forall|j: int| 0 <= j < index ==> all[j] is Ok,
        decreases rest@.len(),
    {
        let outcome = rest.remove(0);
        proof {
            assert(outcome == all[index as int]);
        }
        match outcome {
            Ok(()) => {
                index = index + 1;
                proof {
                    assert(rest@ =~= all.skip(index as int));
                }
            },
            Err(message) => {
                proof {
                    assert(!(outcomes@[index as int] is Ok));
                }
                return Err(ChunkFailure { chunk_index: index, message });
            },
        }
    }
    Ok(())
}

} // verus!
