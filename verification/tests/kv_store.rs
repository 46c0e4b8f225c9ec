use mkvss::db::init_pool;
use mkvss::kv::{create, delete, get, update, CreateResult, DeleteResult, GetResult, UpdateResult};

#[test]
fn create_then_get_returns_value() {
    let mut pool = init_pool("file:kv_create_get?mode=memory&cache=shared").expect("pool");
    assert!(matches!(create(&mut pool, "alpha", "one"), Ok(CreateResult::Created)));
    match get(&mut pool, "alpha") {
        Ok(GetResult::Found(v)) => assert_eq!(v, "one"),
        other => panic!("unexpected lookup outcome: {:?}", other),
    }
}

#[test]
fn second_create_conflicts_and_keeps_first_value() {
    let mut pool = init_pool("file:kv_conflict?mode=memory&cache=shared").expect("pool");
    assert!(matches!(create(&mut pool, "k", "v1"), Ok(CreateResult::Created)));
    assert!(matches!(create(&mut pool, "k", "v2"), Ok(CreateResult::Conflict)));
    match get(&mut pool, "k") {
        Ok(GetResult::Found(v)) => assert_eq!(v, "v1"),
        other => panic!("unexpected lookup outcome: {:?}", other),
    }
}

#[test]
fn update_upserts_whether_or_not_key_exists() {
    let mut pool = init_pool("file:kv_upsert?mode=memory&cache=shared").expect("pool");
    assert!(matches!(update(&mut pool, "fresh", "a"), Ok(UpdateResult::Updated)));
    match get(&mut pool, "fresh") {
        Ok(GetResult::Found(v)) => assert_eq!(v, "a"),
        other => panic!("unexpected lookup outcome: {:?}", other),
    }
    assert!(matches!(update(&mut pool, "fresh", "b"), Ok(UpdateResult::Updated)));
    match get(&mut pool, "fresh") {
        Ok(GetResult::Found(v)) => assert_eq!(v, "b"),
        other => panic!("unexpected lookup outcome: {:?}", other),
    }
}

#[test]
fn delete_existing_then_missing() {
    let mut pool = init_pool("file:kv_delete?mode=memory&cache=shared").expect("pool");
    assert!(matches!(create(&mut pool, "gone", "x"), Ok(CreateResult::Created)));
    assert!(matches!(delete(&mut pool, "gone"), Ok(DeleteResult::Deleted)));
    assert!(matches!(get(&mut pool, "gone"), Ok(GetResult::NotFound)));
    assert!(matches!(delete(&mut pool, "gone"), Ok(DeleteResult::NotFound)));
}

#[test]
fn get_missing_key_not_found() {
    let mut pool = init_pool("file:kv_missing?mode=memory&cache=shared").expect("pool");
    assert!(matches!(get(&mut pool, "nobody"), Ok(GetResult::NotFound)));
}
