//! The runtime model of the emitted operations: insert round trips for
//! both dialect strategies, setter and patch consistency, and the
//! distinct missing-row outcome of delete.

use ormx::attrs::{FieldDecl, TableAttr, TableDecl, TableFieldAttr};
use ormx::backend::Backend;
use ormx::rowstore::{
    apply_patch_outcome, apply_set_outcome, insert_returning, insert_two_step, insert_values_of,
    patch, reload, set_field, DbError, RowStore, Value,
};
use ormx::table::Table;

fn users_table() -> Table {
    let decl = TableDecl {
        ident: "User".to_string(),
        vis: "pub".to_string(),
        attrs: vec![
            TableAttr::Table("users".to_string()),
            TableAttr::Id("user_id".to_string()),
            TableAttr::Insertable(None),
            TableAttr::Deletable,
        ],
        fields: vec![
            FieldDecl {
                name: "user_id".to_string(),
                ty: "i64".to_string(),
                attrs: vec![
                    TableFieldAttr::Column("id".to_string()),
                    TableFieldAttr::DefaultGenerated,
                ],
            },
            FieldDecl {
                name: "first_name".to_string(),
                ty: "String".to_string(),
                attrs: vec![],
            },
            FieldDecl {
                name: "last_name".to_string(),
                ty: "String".to_string(),
                attrs: vec![],
            },
            FieldDecl {
                name: "email".to_string(),
                ty: "String".to_string(),
                attrs: vec![],
            },
            FieldDecl {
                name: "last_login".to_string(),
                ty: "String".to_string(),
                attrs: vec![TableFieldAttr::DefaultGenerated, TableFieldAttr::Setter(None)],
            },
        ],
    };
    Table::try_from(&decl, Backend::MySql).unwrap()
}

fn users_store() -> RowStore {
    RowStore::new(vec![
        Value::Null,
        Value::Null,
        Value::Null,
        Value::Null,
        Value::Text("never".to_string()),
    ])
}

fn text(s: &str) -> Value {
    Value::Text(s.to_string())
}

fn moritz() -> Vec<Value> {
    vec![text("Moritz"), text("Bischof"), text("moritz@example.org")]
}

#[test]
fn two_step_insert_then_get_round_trips() {
    let t = users_table();
    let mut store = users_store();
    let entity = insert_two_step(&mut store, &t, &moritz());
    assert_eq!(
        entity,
        vec![
            Value::Int(1),
            text("Moritz"),
            text("Bischof"),
            text("moritz@example.org"),
            text("never"),
        ]
    );
    let fetched = store.exec_get(&t, 1).unwrap();
    assert_eq!(fetched, entity);
}

#[test]
fn returning_insert_then_get_round_trips() {
    let t = users_table();
    let mut store = users_store();
    let entity = insert_returning(&mut store, &t, &moritz());
    assert_eq!(entity[0], Value::Int(1));
    assert_eq!(entity[4], text("never"));
    assert_eq!(store.exec_get(&t, 1).unwrap(), entity);
    // The two strategies build the same entity for the same input.
    let mut store2 = users_store();
    let entity2 = insert_two_step(&mut store2, &t, &moritz());
    assert_eq!(entity, entity2);
}

#[test]
fn generated_identifiers_are_consecutive_and_fresh() {
    let t = users_table();
    let mut store = users_store();
    let first = insert_returning(&mut store, &t, &moritz());
    let second = insert_returning(
        &mut store,
        &t,
        &vec![text("Second"), text("User"), text("second@example.org")],
    );
    assert_eq!(first[0], Value::Int(1));
    assert_eq!(second[0], Value::Int(2));
    assert_eq!(store.exec_all().len(), 2);
    assert_eq!(store.exec_paginated(1, 5), vec![second.clone()]);
    assert_eq!(store.exec_paginated(0, 1), vec![first.clone()]);
    assert!(store.exec_paginated(9, 5).is_empty());
    assert!(store.exec_paginated(0, 0).is_empty());
}

#[test]
fn caller_supplied_identifier_round_trips() {
    let decl = TableDecl {
        ident: "Pair".to_string(),
        vis: "pub".to_string(),
        attrs: vec![
            TableAttr::Table("pairs".to_string()),
            TableAttr::Id("id".to_string()),
            TableAttr::Insertable(None),
        ],
        fields: vec![
            FieldDecl {
                name: "id".to_string(),
                ty: "i64".to_string(),
                attrs: vec![],
            },
            FieldDecl {
                name: "name".to_string(),
                ty: "String".to_string(),
                attrs: vec![],
            },
        ],
    };
    let t = Table::try_from(&decl, Backend::Postgres).unwrap();
    let mut store = RowStore::new(vec![Value::Null, Value::Null]);
    let entity = insert_returning(&mut store, &t, &vec![Value::Int(10), text("x")]);
    assert_eq!(entity, vec![Value::Int(10), text("x")]);
    assert_eq!(store.exec_get(&t, 10).unwrap(), entity);
}

#[test]
fn setter_updates_the_field_and_nothing_else() {
    let t = users_table();
    let mut store = users_store();
    let mut entity = insert_two_step(&mut store, &t, &moritz());
    let before = entity.clone();
    set_field(&mut entity, &mut store, &t, 4, text("today")).unwrap();
    assert_eq!(entity[4], text("today"));
    let fetched = store.exec_get(&t, 1).unwrap();
    assert_eq!(fetched, entity);
    for c in 0..4 {
        assert_eq!(fetched[c], before[c]);
    }
}

#[test]
fn setter_leaves_memory_untouched_on_failure() {
    let mut entity = vec![Value::Int(1), text("a")];
    let r = apply_set_outcome(&mut entity, 1, text("b"), Err(DbError::DecodeFailure));
    assert_eq!(r, Err(DbError::DecodeFailure));
    assert_eq!(entity, vec![Value::Int(1), text("a")]);
    let r = apply_set_outcome(&mut entity, 1, text("b"), Ok(()));
    assert!(r.is_ok());
    assert_eq!(entity[1], text("b"));
}

#[test]
fn patch_persists_exactly_the_declared_fields() {
    let t = users_table();
    let mut store = users_store();
    let mut entity = insert_two_step(&mut store, &t, &moritz());
    let before = entity.clone();
    patch(
        &mut entity,
        &mut store,
        &t,
        &vec![1, 2],
        &vec![text("NewFirstName"), text("NewLastName")],
    )
    .unwrap();
    assert_eq!(entity[1], text("NewFirstName"));
    assert_eq!(entity[2], text("NewLastName"));
    assert_eq!(entity[3], before[3]);
    assert_eq!(entity[4], before[4]);
    assert_eq!(store.exec_get(&t, 1).unwrap(), entity);
}

#[test]
fn patch_merges_only_after_a_successful_persist() {
    let mut entity = vec![Value::Int(1), text("a"), text("b")];
    let r = apply_patch_outcome(
        &mut entity,
        &vec![1, 2],
        &vec![text("x"), text("y")],
        Err(DbError::ConnectionFailure),
    );
    assert_eq!(r, Err(DbError::ConnectionFailure));
    assert_eq!(entity, vec![Value::Int(1), text("a"), text("b")]);
    let r = apply_patch_outcome(&mut entity, &vec![1, 2], &vec![text("x"), text("y")], Ok(()));
    assert!(r.is_ok());
    assert_eq!(entity, vec![Value::Int(1), text("x"), text("y")]);
}

#[test]
fn delete_of_a_missing_row_reports_and_changes_nothing() {
    let t = users_table();
    let mut store = users_store();
    let entity = insert_two_step(&mut store, &t, &moritz());
    // No row has id 7: the delete must fail, not silently succeed,
    // and must leave the row set unchanged.
    assert_eq!(store.exec_delete(&t, 7), Err(DbError::RowNotFound));
    assert_eq!(store.exec_all().len(), 1);
    assert_eq!(store.exec_get(&t, 1).unwrap(), entity);
}

#[test]
fn delete_of_an_existing_row_removes_exactly_it() {
    let t = users_table();
    let mut store = users_store();
    insert_two_step(&mut store, &t, &moritz());
    let second = insert_two_step(
        &mut store,
        &t,
        &vec![text("Second"), text("User"), text("second@example.org")],
    );
    assert!(store.exec_delete(&t, 1).is_ok());
    assert_eq!(store.exec_get(&t, 1), Err(DbError::RowNotFound));
    assert_eq!(store.exec_get(&t, 2).unwrap(), second);
}

#[test]
fn full_update_replaces_every_field_of_the_row() {
    let t = users_table();
    let mut store = users_store();
    let mut entity = insert_two_step(&mut store, &t, &moritz());
    entity[3] = text("asdf");
    store.exec_update_row(&t, &entity).unwrap();
    assert_eq!(store.exec_get(&t, 1).unwrap(), entity);
}

#[test]
fn fetch_columns_reads_the_chosen_columns_in_order() {
    let t = users_table();
    let mut store = users_store();
    insert_two_step(&mut store, &t, &moritz());
    let vals = store.exec_fetch_columns(&t, &vec![3, 1], 1).unwrap();
    assert_eq!(vals, vec![text("moritz@example.org"), text("Moritz")]);
    assert_eq!(
        store.exec_fetch_columns(&t, &vec![1], 9),
        Err(DbError::RowNotFound)
    );
}

#[test]
fn lookups_follow_their_declared_cardinality() {
    let t = users_table();
    let mut store = users_store();
    insert_two_step(&mut store, &t, &moritz());
    let second = insert_two_step(
        &mut store,
        &t,
        &vec![text("Erika"), text("Bischof"), text("erika@example.org")],
    );
    // Zero or more rows: every match, in insertion order.
    let by_last = store.exec_get_many(&t, 2, &text("Bischof"));
    assert_eq!(by_last.len(), 2);
    assert_eq!(by_last[1], second);
    assert!(store.exec_get_many(&t, 2, &text("Nobody")).is_empty());
    // Zero or one row: the first match.
    let first = store.exec_get_optional(&t, 2, &text("Bischof")).unwrap();
    assert_eq!(first[1], text("Moritz"));
    assert!(store.exec_get_optional(&t, 3, &text("missing")).is_none());
    // Exactly one row: zero matches and two matches both fail.
    let one = store.exec_get_one(&t, 3, &text("erika@example.org")).unwrap();
    assert_eq!(one, second);
    assert_eq!(
        store.exec_get_one(&t, 2, &text("Bischof")),
        Err(DbError::RowNotFound)
    );
    assert_eq!(
        store.exec_get_one(&t, 3, &text("missing")),
        Err(DbError::RowNotFound)
    );
    // Set membership over an array argument.
    let any = store.exec_get_by_any(
        &t,
        3,
        &vec![text("erika@example.org"), text("moritz@example.org"), text("x")],
    );
    assert_eq!(any.len(), 2);
    assert!(store.exec_get_by_any(&t, 3, &Vec::new()).is_empty());
}

#[test]
fn entity_projects_onto_its_insert_values() {
    let t = users_table();
    let mut store = users_store();
    let entity = insert_two_step(&mut store, &t, &moritz());
    // The projection picks exactly the caller-supplied fields back out,
    // in declaration order.
    assert_eq!(insert_values_of(&t, &entity), moritz());
}

#[test]
fn reload_refreshes_from_the_persisted_row() {
    let t = users_table();
    let mut store = users_store();
    let mut entity = insert_two_step(&mut store, &t, &moritz());
    // Another writer patches the row behind the entity's back.
    let mut other = entity.clone();
    patch(&mut other, &mut store, &t, &vec![3], &vec![text("new@example.org")]).unwrap();
    assert_ne!(entity[3], text("new@example.org"));
    reload(&mut entity, &store, &t).unwrap();
    assert_eq!(entity[3], text("new@example.org"));
    assert_eq!(entity, other);
    // Reloading a deleted row reports the missing row and keeps the
    // entity as it was.
    store.exec_delete(&t, 1).unwrap();
    let before = entity.clone();
    assert_eq!(reload(&mut entity, &store, &t), Err(DbError::RowNotFound));
    assert_eq!(entity, before);
}
