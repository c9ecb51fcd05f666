use bulk_query::basics::DatabaseBuilderExtensions;
use bulk_query::builder;
use bulk_query::projectors::FromEntity;
use bulk_query::values::{chunk_capacity, partition, ConfigError, SaveManyQuery, BIND_LIMIT};
use bulk_query::DatabaseUtilities;

#[derive(Clone, Copy, PartialEq, Eq, Debug)]
struct Person {
    id: u32,
    score: u32,
}

struct DbPerson {
    id: u32,
    score: u32,
}

impl DatabaseUtilities<DbPerson> for DbPerson {
    fn table_name() -> String {
        "people".to_string()
    }
    fn column_names() -> Vec<String> {
        vec!["id".to_string(), "score".to_string()]
    }
    fn row_values(e: &DbPerson) -> Vec<String> {
        vec![e.id.to_string(), e.score.to_string()]
    }
}

impl FromEntity<Person> for DbPerson {
    fn from_entity(e: Person) -> Self {
        DbPerson {
            id: e.id,
            score: e.score,
        }
    }
}

struct NoColumns;

impl DatabaseUtilities<NoColumns> for NoColumns {
    fn table_name() -> String {
        "nothing".to_string()
    }
    fn column_names() -> Vec<String> {
        Vec::new()
    }
    fn row_values(_: &NoColumns) -> Vec<String> {
        Vec::new()
    }
}

impl FromEntity<()> for NoColumns {
    fn from_entity(_: ()) -> Self {
        NoColumns
    }
}

#[test]
fn capacity_of_seven_entities_with_arity_two() {
    // With a bind limit of 10 and two columns per row, five entities fit in a
    // chunk, so seven entities split into chunks of five and two.
    assert_eq!(chunk_capacity(10, 2), Some(5));
    let chunks = partition((0..7).collect::<Vec<u32>>(), 5);
    let sizes: Vec<usize> = chunks.iter().map(|c| c.len()).collect();
    assert_eq!(sizes, vec![5, 2]);
    assert_eq!(chunks[0], vec![0, 1, 2, 3, 4]);
    assert_eq!(chunks[1], vec![5, 6]);
}

#[test]
fn partition_keeps_order_and_entities() {
    let data: Vec<u32> = (0..23).collect();
    let chunks = partition(data.clone(), 4);
    let rejoined: Vec<u32> = chunks.into_iter().flatten().collect();
    assert_eq!(rejoined, data);
}

#[test]
fn many_values_builds_one_statement_per_chunk() {
    let proto = builder();

    let people = vec![
        Person { id: 1, score: 10 },
        Person { id: 2, score: 20 },
        Person { id: 3, score: 30 },
    ];
    let statements = <_ as SaveManyQuery<Person, DbPerson>>::many_values(&proto, people).unwrap();

    assert_eq!(statements.len(), 1);
    assert_eq!(
        statements[0].sql(),
        "INSERT INTO people (id, score) VALUES ($1, $2), ($3, $4), ($5, $6)"
    );
}

#[test]
fn many_values_empty_input_builds_nothing() {
    let proto = builder();

    let statements = <_ as SaveManyQuery<Person, DbPerson>>::many_values(&proto, Vec::new());
    assert_eq!(statements.unwrap().len(), 0);
}

#[test]
fn many_values_rejects_zero_arity() {
    let proto = builder();
    let outcome = <_ as SaveManyQuery<(), NoColumns>>::many_values(&proto, vec![(), ()]);
    match outcome {
        Ok(_) => panic!("a zero-arity descriptor must be refused"),
        Err(e) => assert_eq!(
            e,
            ConfigError {
                arity: 0,
                bind_limit: BIND_LIMIT,
            }
        ),
    }
}

#[test]
fn single_value_clause() {
    let mut statement = builder();
    statement.insert_into("people");
    statement.cols(&vec!["id".to_string(), "score".to_string()]);
    statement.value::<Person, DbPerson>(Person { id: 7, score: 9 });

    assert_eq!(
        statement.sql(),
        "INSERT INTO people (id, score) VALUES ($1, $2)"
    );
}

#[test]
fn clause_helpers_compose() {
    let mut statement = builder();
    statement.select("*");
    statement.from("people");
    statement.query("WHERE id = 1");
    assert_eq!(statement.sql(), "SELECT * FROM people WHERE id = 1");

    let mut removal = builder();
    removal.delete_from("people");
    assert_eq!(removal.sql(), "DELETE FROM people ");
}

#[test]
fn many_values_splits_at_the_bind_limit() {
    let proto = builder();

    // With arity 2 and the limit of 10000 bound parameters, 5000 entities fill
    // one chunk; the 5001st starts a second statement of its own, numbered
    // from $1 again.
    let people: Vec<Person> = (0..5001).map(|i| Person { id: i, score: i }).collect();
    let statements = <_ as SaveManyQuery<Person, DbPerson>>::many_values(&proto, people).unwrap();

    assert_eq!(statements.len(), 2);
    let first = statements[0].sql();
    assert!(first.starts_with("INSERT INTO people (id, score) VALUES ($1, $2), ($3, $4)"));
    assert!(first.ends_with("($9999, $10000)"));
    assert_eq!(
        statements[1].sql(),
        "INSERT INTO people (id, score) VALUES ($1, $2)"
    );
}
