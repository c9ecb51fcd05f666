use vstd::prelude::*;

use crate::backend::{
    bindable, qb_new, qb_push_values, ready, rows_bindable, statement_params, statement_text,
    StatementBuffer, StatementView,
};
use crate::basics::DatabaseBuilderExtensions;
use crate::projectors::FromEntity;
use crate::text::{comma_join, row_lens, rows_view, values_clause};
use crate::{builder, row_of, DatabaseUtilities};

verus! {

/// The ceiling the wire protocol imposes on the number of bound parameters in
/// one statement.
pub const BIND_LIMIT: usize = 10000;

/// How many entities fit in one chunk: each entity binds `arity` parameters
/// and one statement may bind at most `bind_limit` of them. `None` marks the
/// configuration error of an arity of zero or one beyond the limit.
pub fn chunk_capacity(bind_limit: usize, arity: usize) -> (r: Option<usize>)
    ensures
        r is Some <==> 0 < arity <= bind_limit,
        r is Some ==> r->0 == bind_limit as int / arity as int && r->0 >= 1,
{
    if arity == 0 || arity > bind_limit {
        None
    } else {
        let cap = bind_limit / arity;
        proof {
            assert(bind_limit as int / arity as int >= 1) by (nonlinear_arith)
                requires
                    0 < arity <= bind_limit,
            ;
        }
        Some(cap)
    }
}

/// The input split into chunks of `cap` entities, in order; only the last
/// chunk may be shorter.
pub open spec fn chunks_of<T>(data: Seq<T>, cap: int) -> Seq<Seq<T>>
    recommends
        cap >= 1,
    decreases data.len(),
{
    if data.len() == 0 || cap < 1 {
        Seq::empty()
    } else if data.len() <= cap {
        seq![data]
    } else {
        seq![data.take(cap)] + chunks_of(data.skip(cap), cap)
    }
}

/// Splits the input into ordered chunks of `cap` entities, the last possibly
/// shorter, without reordering, loss or duplication.
pub fn partition<T>(data: Vec<T>, cap: usize) -> (r: Vec<Vec<T>>)
    requires
        cap >= 1,
    ensures
        r@.map_values(|c: Vec<T>| c@) == chunks_of(data@, cap as int),
{
    let ghost orig = data@;
    let mut rest = data;
    let mut out: Vec<Vec<T>> = Vec::new();
    while rest.len() > 0
        invariant
            cap >= 1,
            out@.map_values(|c: Vec<T>| c@) + chunks_of(rest@, cap as int) == chunks_of(
                orig,
                cap as int,
            ),
        decreases rest@.len(),
    {
        let ghost rest0 = rest@;
        let mut chunk: Vec<T> = Vec::new();
        while chunk.len() < cap && rest.len() > 0
            invariant
                chunk@.len() <= cap,
                chunk@ + rest@ == rest0,
                chunk@.len() == cap || rest@.len() == 0 || chunk@ == rest0.take(
                    chunk@.len() as int,
                ),
            decreases rest@.len(),
        {
            let e = rest.remove(0);
            chunk.push(e);
            proof {
                assert(chunk@ + rest@ =~= rest0);
            }
        }
        proof {
            assert(chunk@ =~= rest0.take(chunk@.len() as int));
            assert(rest@ =~= rest0.skip(chunk@.len() as int));
            if rest0.len() <= cap {
                assert(chunk@ =~= rest0);
                assert(chunks_of(rest0, cap as int) == seq![rest0]);
            } else {
                assert(chunk@.len() == cap);
                assert(chunks_of(rest0, cap as int) == seq![rest0.take(cap as int)]
                    + chunks_of(rest0.skip(cap as int), cap as int));
            }
        }
        out.push(chunk);
        proof {
            assert(out@.map_values(|c: Vec<T>| c@) =~= out@.drop_last().map_values(
                |c: Vec<T>| c@,
            ).push(out@.last()@));
            assert(out@.map_values(|c: Vec<T>| c@) + chunks_of(rest@, cap as int) =~= chunks_of(
                orig,
                cap as int,
            ));
        }
    }
    proof {
        assert(out@.map_values(|c: Vec<T>| c@) =~= chunks_of(orig, cap as int));
    }
    out
}

/// Law: the chunks concatenate back to the input, in order: no entity is
/// lost, duplicated or reordered.
pub proof fn lemma_chunks_concat<T>(data: Seq<T>, cap: int)
    requires
        cap >= 1,
    ensures
        chunks_of(data, cap).flatten() == data,
    decreases data.len(),
{
    if data.len() == 0 {
        assert(chunks_of(data, cap).flatten() =~= data);
    } else if data.len() <= cap {
        chunks_of(data, cap).lemma_flatten_one_element();
        assert(chunks_of(data, cap).flatten() =~= data);
    } else {
        lemma_chunks_concat(data.skip(cap), cap);
        assert(chunks_of(data, cap).drop_first() =~= chunks_of(data.skip(cap), cap));
        assert(chunks_of(data, cap).flatten() == data.take(cap) + chunks_of(
            data.skip(cap),
            cap,
        ).flatten());
        assert(data.take(cap) + data.skip(cap) =~= data);
    }
}

/// Every chunk holds at least one entity and at most `cap`; every chunk but
/// the last holds exactly `cap`, so only the final chunk may be shorter.
pub proof fn lemma_chunk_sizes<T>(data: Seq<T>, cap: int)
    requires
        cap >= 1,
    ensures
        forall|ci: int|
            0 <= ci < chunks_of(data, cap).len() ==> 1 <= #[trigger] chunks_of(data, cap)[ci].len()
                <= cap,
        forall|ci: int|
            0 <= ci < chunks_of(data, cap).len() - 1 ==> #[trigger] chunks_of(data, cap)[ci].len()
                == cap,
    decreases data.len(),
{
    if data.len() > cap {
        lemma_chunk_sizes(data.skip(cap), cap);
        assert forall|ci: int| 0 <= ci < chunks_of(data, cap).len() implies 1 <= #[trigger] chunks_of(
            data,
            cap,
        )[ci].len() <= cap by {
            if ci > 0 {
                assert(chunks_of(data, cap)[ci] == chunks_of(data.skip(cap), cap)[ci - 1]);
            }
        }
        assert forall|ci: int|
            0 <= ci < chunks_of(data, cap).len() - 1 implies #[trigger] chunks_of(data, cap)[ci].len()
            == cap by {
            if ci > 0 {
                assert(chunks_of(data, cap)[ci] == chunks_of(data.skip(cap), cap)[ci - 1]);
            }
        }
    }
}

/// The element at position `pos` of the input lands in chunk `pos / cap`, at
/// offset `pos % cap` within it: within-chunk order equals input order.
pub proof fn lemma_chunk_positions<T>(data: Seq<T>, cap: int, ci: int, j: int)
    requires
        cap >= 1,
        0 <= ci < chunks_of(data, cap).len(),
        0 <= j < chunks_of(data, cap)[ci].len(),
    ensures
        ci * cap + j < data.len(),
        chunks_of(data, cap)[ci][j] == data[ci * cap + j],
    decreases data.len(),
{
    if ci == 0 {
        assert(chunks_of(data, cap)[0][j] == data[j]);
        assert(ci * cap + j == j);
    } else {
        assert(data.len() > cap);
        assert(chunks_of(data, cap) == seq![data.take(cap)] + chunks_of(data.skip(cap), cap));
        assert(chunks_of(data, cap)[ci] == chunks_of(data.skip(cap), cap)[ci - 1]);
        lemma_chunk_positions(data.skip(cap), cap, ci - 1, j);
        assert((ci - 1) * cap + j + cap == ci * cap + j) by (nonlinear_arith);
        assert((ci - 1) * cap + j < data.skip(cap).len());
        assert(ci * cap + j < data.len());
        assert(data.skip(cap)[(ci - 1) * cap + j] == data[ci * cap + j]);
        assert(chunks_of(data, cap)[ci][j] == data[ci * cap + j]);
    }
}

/// Law: every chunk respects the binding ceiling: `len(chunk) * arity` never
/// exceeds `bind_limit` when the chunks are `bind_limit / arity` entities
/// wide, and only the final chunk may hold fewer than that capacity.
pub proof fn lemma_chunks_respect_bind_limit<T>(data: Seq<T>, arity: int, bind_limit: int)
    requires
        1 <= arity <= bind_limit,
    ensures
        ({
            let cap = bind_limit / arity;
            let chunks = chunks_of(data, cap);
            &&& forall|ci: int|
                0 <= ci < chunks.len() ==> #[trigger] chunks[ci].len() * arity <= bind_limit
            &&& forall|ci: int| 0 <= ci < chunks.len() - 1 ==> #[trigger] chunks[ci].len() == cap
        }),
{
    let cap = bind_limit / arity;
    assert(cap >= 1 && cap * arity <= bind_limit) by (nonlinear_arith)
        requires
            1 <= arity <= bind_limit,
            cap == bind_limit / arity,
    ;
    lemma_chunk_sizes(data, cap);
    let chunks = chunks_of(data, cap);
    assert forall|ci: int| 0 <= ci < chunks.len() implies #[trigger] chunks[ci].len() * arity
        <= bind_limit by {
        assert(1 <= chunks[ci].len() <= cap);
        assert(chunks[ci].len() * arity <= cap * arity) by (nonlinear_arith)
            requires
                chunks[ci].len() <= cap,
                arity >= 1,
        ;
    }
}

/// The rows one chunk of entities contributes, entity by entity: each entity
/// is projected to its row form and bound column by column.
pub open spec fn chunk_rows<Entity, DbEntity>(chunk: Seq<Entity>) -> Seq<Seq<Seq<char>>> where
    DbEntity: DatabaseUtilities<DbEntity> + FromEntity<Entity>,
 {
    chunk.map_values(|e: Entity| row_of::<Entity, DbEntity>(e))
}

/// The text seeding every chunk's statement, built from the descriptor:
/// `INSERT INTO <table> (<columns>) `.
pub open spec fn insert_seed<DbEntity>() -> Seq<char> where DbEntity: DatabaseUtilities<DbEntity> {
    "INSERT INTO "@ + DbEntity::spec_table_name() + " "@ + "("@ + comma_join(
        DbEntity::spec_column_names(),
    ) + ") "@
}

/// What the partitioner owes for an input and a seed text: one statement per
/// chunk, each holding the seed followed by one multi-row VALUES clause for
/// exactly the chunk's rows, binding them in order.
pub open spec fn statements_spec<Entity, DbEntity>(
    seed: Seq<char>,
    data: Seq<Entity>,
    cap: int,
    texts: Seq<Seq<char>>,
    params: Seq<Seq<Seq<char>>>,
) -> bool where DbEntity: DatabaseUtilities<DbEntity> + FromEntity<Entity> {
    let chunks = chunks_of(data, cap);
    &&& texts.len() == chunks.len()
    &&& params.len() == chunks.len()
    &&& forall|ci: int|
        0 <= ci < chunks.len() ==> #[trigger] texts[ci] == seed + values_clause(
            0,
            row_lens(chunk_rows::<Entity, DbEntity>(chunks[ci])),
        )
    &&& forall|ci: int|
        0 <= ci < chunks.len() ==> #[trigger] params[ci] == chunk_rows::<Entity, DbEntity>(
            chunks[ci],
        ).flatten()
}

/// Law: the partitioner is deterministic, so re-running it on the same input,
/// descriptor and seed is idempotent: any two outcomes that meet its contract
/// have identical chunk boundaries, statement text and bound values.
pub proof fn lemma_partitioner_deterministic<Entity, DbEntity>(
    seed: Seq<char>,
    data: Seq<Entity>,
    cap: int,
    texts1: Seq<Seq<char>>,
    params1: Seq<Seq<Seq<char>>>,
    texts2: Seq<Seq<char>>,
    params2: Seq<Seq<Seq<char>>>,
) where DbEntity: DatabaseUtilities<DbEntity> + FromEntity<Entity>
    requires
        statements_spec::<Entity, DbEntity>(seed, data, cap, texts1, params1),
        statements_spec::<Entity, DbEntity>(seed, data, cap, texts2, params2),
    ensures
        texts1 == texts2,
        params1 == params2,
{
    assert(texts1 =~= texts2);
    assert(params1 =~= params2);
}

/// The configuration error the partitioner rejects before building or
/// executing anything: a row arity of zero, or one beyond the bind limit,
/// leaves no room for even one row per statement.
#[derive(Debug, PartialEq, Eq, Structural)]
pub struct ConfigError {
    pub arity: usize,
    pub bind_limit: usize,
}

/// Builds the bulk-write statements: the input is split into ordered chunks
/// that respect the binding ceiling, and each chunk becomes one statement.
pub trait SaveManyQuery<Entity, DbEntity>: StatementView where
    DbEntity: DatabaseUtilities<DbEntity> + FromEntity<Entity>,
 {
    /// Partitions `data` into chunks of `BIND_LIMIT / arity` entities (only
    /// the last chunk may be shorter) and assembles one statement per chunk:
    /// `INSERT INTO <table> (<columns>) ` built from the descriptor as the
    /// seed, then a multi-row VALUES clause binding every chunk row in order.
    /// The receiver only names the statement type; its own accumulated text
    /// plays no part. Empty input yields no statements. A descriptor whose
    /// arity is zero or exceeds `BIND_LIMIT` is refused outright, before any
    /// statement is built.
    fn many_values(&self, data: Vec<Entity>) -> (r: Result<Vec<StatementBuffer>, ConfigError>)
        ensures
            r is Ok <==> 0 < DbEntity::spec_column_names().len() <= BIND_LIMIT as int,
            r is Err ==> r->Err_0 == (ConfigError {
                arity: DbEntity::spec_column_names().len() as usize,
                bind_limit: BIND_LIMIT,
            }),
            r is Ok ==> ({
                let cap = BIND_LIMIT as int / DbEntity::spec_column_names().len() as int;
                let out = r->Ok_0;
                &&& statements_spec::<Entity, DbEntity>(
                    insert_seed::<DbEntity>(),
                    data@,
                    cap,
                    out@.map_values(|b: StatementBuffer| statement_text(b)),
                    out@.map_values(|b: StatementBuffer| statement_params(b)),
                )
                &&& forall|ci: int| 0 <= ci < out@.len() ==> ready(#[trigger] out@[ci])
                &&& (data@.len() == 0 ==> out@.len() == 0)
            }),
    ;
}

impl<Entity, DbEntity> SaveManyQuery<Entity, DbEntity> for StatementBuffer where
    DbEntity: DatabaseUtilities<DbEntity> + FromEntity<Entity>,
 {
    #[verifier::loop_isolation(false)]
    fn many_values(&self, data: Vec<Entity>) -> (r: Result<Vec<StatementBuffer>, ConfigError>) {
        let columns = DbEntity::column_names();
        let arity = columns.len();
        let cap = match chunk_capacity(BIND_LIMIT, arity) {
            Some(cap) => cap,
            None => {
                return Err(ConfigError { arity, bind_limit: BIND_LIMIT });
            },
        };
        let table = DbEntity::table_name();
        let mut seed_buf = builder();
        seed_buf.insert_into(table.as_str());
        seed_buf.cols(&columns);
        let seed = seed_buf.sql();
        proof {
            assert(seed@ =~= insert_seed::<DbEntity>());
        }
        let ghost chunk_views = chunks_of(data@, cap as int);
        let mut rest = partition(data, cap);
        let mut out: Vec<StatementBuffer> = Vec::new();
        proof {
            lemma_chunk_sizes(data@, cap as int);
        }
        while rest.len() > 0
            invariant
                out@.len() + rest@.len() == chunk_views.len(),
                rest@.map_values(|c: Vec<Entity>| c@) == chunk_views.skip(out@.len() as int),
                forall|ci: int|
                    0 <= ci < out@.len() ==> statement_text(#[trigger] out@[ci]) == seed@
                        + values_clause(
                        0,
                        row_lens(chunk_rows::<Entity, DbEntity>(chunk_views[ci])),
                    ),
                forall|ci: int|
                    0 <= ci < out@.len() ==> statement_params(#[trigger] out@[ci]) == chunk_rows::<
                        Entity,
                        DbEntity,
                    >(chunk_views[ci]).flatten(),
                forall|ci: int| 0 <= ci < out@.len() ==> ready(#[trigger] out@[ci]),
            decreases rest@.len(),
        {
            let ghost k = out@.len() as int;
            proof {
                assert(rest@.map_values(|c: Vec<Entity>| c@)[0] == chunk_views.skip(k)[0]);
                assert(chunk_views.skip(k)[0] == chunk_views[k]);
                assert(1 <= chunk_views[k].len());
            }
            let ghost rv0 = rest@;
            let mut chunk = rest.remove(0);
            let ghost cv = chunk@;
            proof {
                assert(cv == chunk_views[k]);
            }
            let mut rows: Vec<Vec<String>> = Vec::new();
            while chunk.len() > 0
                invariant
                    rows@.len() + chunk@.len() == cv.len(),
                    chunk@ == cv.skip(rows@.len() as int),
                    rows_view(rows@) == chunk_rows::<Entity, DbEntity>(cv).take(rows@.len() as int),
                    rows_bindable(rows_view(rows@)),
                decreases chunk@.len(),
            {
                let e = chunk.remove(0);
                let db_value = DbEntity::from_entity(e);
                let row = DbEntity::row_values(&db_value);
                let ghost rows_before = rows_view(rows@);
                rows.push(row);
                proof {
                    assert(chunk@ =~= cv.skip(rows@.len() as int));
                    assert(rows_view(rows@) =~= chunk_rows::<Entity, DbEntity>(cv).take(
                        rows@.len() as int,
                    ));
                    assert forall|a: int, b: int|
                        0 <= a < rows_view(rows@).len() && 0 <= b < rows_view(rows@)[a].len() implies bindable(
                        #[trigger] rows_view(rows@)[a][b],
                    ) by {
                        if a < rows_view(rows@).len() - 1 {
                            assert(rows_view(rows@)[a] == rows_before[a]);
                        } else {
                            assert(rows_view(rows@)[a] == row@.map_values(|v: String| v@));
                            assert(rows_view(rows@)[a][b] == row@[b]@);
                        }
                    }
                }
            }
            proof {
                assert(rows_view(rows@) =~= chunk_rows::<Entity, DbEntity>(cv));
            }
            let mut qb = qb_new(seed.as_str());
            qb_push_values(&mut qb, rows);
            proof {
                assert(statement_params(qb) =~= chunk_rows::<Entity, DbEntity>(cv).flatten());
            }
            out.push(qb);
            proof {
                assert(rest@ =~= rv0.skip(1));
                assert forall|j: int|
                    #![trigger chunk_views.skip(out@.len() as int)[j]]
                    0 <= j < rest@.len() implies rest@.map_values(|c: Vec<Entity>| c@)[j]
                    == chunk_views.skip(out@.len() as int)[j] by {
                    assert(rest@[j] == rv0[j + 1]);
                    assert(rv0.map_values(|c: Vec<Entity>| c@)[j + 1] == rv0[j + 1]@);
                    assert(chunk_views.skip(k)[j + 1] == chunk_views[k + j + 1]);
                    assert(chunk_views.skip(out@.len() as int)[j] == chunk_views[out@.len() + j]);
                }
                assert(rest@.map_values(|c: Vec<Entity>| c@) =~= chunk_views.skip(
                    out@.len() as int,
                ));
            }
        }
        proof {
            let texts = out@.map_values(|b: StatementBuffer| statement_text(b));
            let params = out@.map_values(|b: StatementBuffer| statement_params(b));
            assert forall|ci: int| 0 <= ci < chunk_views.len() implies #[trigger] texts[ci]
                == insert_seed::<DbEntity>() + values_clause(
                0,
                row_lens(chunk_rows::<Entity, DbEntity>(chunk_views[ci])),
            ) by {
                assert(texts[ci] == statement_text(out@[ci]));
            }
            assert forall|ci: int| 0 <= ci < chunk_views.len() implies #[trigger] params[ci]
                == chunk_rows::<Entity, DbEntity>(chunk_views[ci]).flatten() by {
                assert(params[ci] == statement_params(out@[ci]));
            }
        }
        Ok(out)
    }
}

} // verus!
