use bulk_query::basics::DatabaseBuilderExtensions;
use bulk_query::builder;
use bulk_query::in_items::{PushExtractedInItems, PushInItems};

#[test]
fn add_in_items() {
    let names = vec!["tom".to_string(), "jojo".to_string(), "jeff".to_string()];

    let mut query_builder = builder();
    query_builder.query("SELECT * FROM name WHERE name");
    query_builder.in_items(names);

    assert_eq!(
        query_builder.sql(),
        "SELECT * FROM name WHERE name in ($1, $2, $3) "
    );
}

#[test]
fn add_in_items_fn() {
    struct Entity<'a> {
        name: &'a str,
        _age: usize,
    }

    let people = vec![
        Entity {
            name: "tom",
            _age: 23,
        },
        Entity {
            name: "jojo",
            _age: 43,
        },
        Entity {
            name: "jeff",
            _age: 13,
        },
    ];

    fn extract_fn(person: &Entity<'_>) -> String {
        person.name.to_string()
    }

    let mut query_builder = builder();
    query_builder.query("SELECT * FROM name WHERE name ");
    query_builder.in_items_fn(&people, extract_fn);

    assert_eq!(
        query_builder.sql(),
        "SELECT * FROM name WHERE name in ($1, $2, $3) "
    );
}

#[test]
fn in_clause_after_where_clause() {
    let items = vec!["a".to_string(), "b".to_string(), "c".to_string()];

    let mut query_builder = builder();
    query_builder.query("... WHERE name");
    query_builder.in_items(items);

    assert_eq!(query_builder.sql(), "... WHERE name in ($1, $2, $3) ");
}

#[test]
fn in_items_empty_list_matches_nothing() {
    let mut query_builder = builder();
    query_builder.query("SELECT * FROM name WHERE name");
    query_builder.in_items(Vec::new());

    assert_eq!(query_builder.sql(), "SELECT * FROM name WHERE name in () ");
}

#[test]
fn in_items_two_digit_placeholders() {
    let items: Vec<String> = (0..12).map(|i| format!("v{i}")).collect();

    let mut query_builder = builder();
    query_builder.in_items(items);

    assert_eq!(
        query_builder.sql(),
        " in ($1, $2, $3, $4, $5, $6, $7, $8, $9, $10, $11, $12) "
    );
}

#[test]
fn placeholder_numbering_continues_within_one_statement() {
    let mut query_builder = builder();
    query_builder.query("SELECT * FROM pairs WHERE a");
    query_builder.in_items(vec!["x".to_string(), "y".to_string()]);
    query_builder.query("AND b");
    query_builder.in_items(vec!["z".to_string()]);

    assert_eq!(
        query_builder.sql(),
        "SELECT * FROM pairs WHERE a in ($1, $2) AND b in ($3) "
    );
}
