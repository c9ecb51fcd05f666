use bulk_query::projectors::{round_trip, FromEntity, ToDatabase, ToEntity};
use bulk_query::DatabaseUtilities;

#[derive(Clone, Copy, Eq, PartialEq, Debug)]
struct DbStruct;
#[derive(Clone, Copy, Eq, PartialEq, Debug)]
struct Struct;

#[derive(Clone, Copy, Eq, PartialEq, Debug)]
struct DbOtherStruct;
#[derive(Clone, Copy, Eq, PartialEq, Debug)]
struct OtherStruct;

impl ToEntity<Struct> for DbStruct {
    fn to_entity(self) -> Struct {
        Struct
    }
}

impl FromEntity<Struct> for DbStruct {
    fn from_entity(_: Struct) -> Self {
        DbStruct
    }
}

impl ToDatabase for Struct {
    type DbEntity = DbStruct;
    fn to_db(self) -> Self::DbEntity {
        Self::DbEntity::from_entity(self)
    }
}

impl ToEntity<OtherStruct> for DbOtherStruct {
    fn to_entity(self) -> OtherStruct {
        OtherStruct
    }
}

impl FromEntity<OtherStruct> for DbOtherStruct {
    fn from_entity(_: OtherStruct) -> Self {
        DbOtherStruct
    }
}

impl ToDatabase for OtherStruct {
    type DbEntity = DbOtherStruct;
    fn to_db(self) -> Self::DbEntity {
        Self::DbEntity::from_entity(self)
    }
}

impl DatabaseUtilities<DbStruct> for DbStruct {
    fn table_name() -> String {
        "table_name".to_string()
    }
    fn column_names() -> Vec<String> {
        vec!["col_one".to_string(), "col_two".to_string()]
    }
    fn row_values(_: &DbStruct) -> Vec<String> {
        vec!["one".to_string(), "two".to_string()]
    }
}

impl DatabaseUtilities<DbOtherStruct> for DbOtherStruct {
    fn table_name() -> String {
        "other_table_name".to_string()
    }
    fn column_names() -> Vec<String> {
        vec!["other_col_one".to_string(), "other_col_two".to_string()]
    }
    fn row_values(_: &DbOtherStruct) -> Vec<String> {
        vec!["one".to_string(), "two".to_string()]
    }
}

#[test]
fn database_util_implemented() {
    assert_eq!(Struct::table_name(), "table_name");
    assert_eq!(
        <Struct as DatabaseUtilities<DbStruct>>::column_names(),
        vec!["col_one".to_string(), "col_two".to_string()]
    );

    assert_eq!(OtherStruct::table_name(), "other_table_name");
    assert_eq!(
        <OtherStruct as DatabaseUtilities<DbOtherStruct>>::column_names(),
        vec!["other_col_one".to_string(), "other_col_two".to_string()]
    );
}

#[test]
fn to_database_implemented() {
    assert_eq!(Struct.to_db(), DbStruct);
    assert_eq!(DbStruct.to_entity(), Struct);
    assert_eq!(OtherStruct.to_db(), DbOtherStruct);
    assert_eq!(DbOtherStruct.to_entity(), OtherStruct);
}

#[test]
fn projection_round_trips() {
    assert_eq!(round_trip(Struct), Struct);
    assert_eq!(round_trip(OtherStruct), OtherStruct);
}
