use wx_counter::db::statement::{Bind, Reply, Shape, Statement};
use wx_counter::db::store::Store;
use wx_counter::db::{Counter, User};

fn insert(user_id: i32, name: &str, sequence: i32) -> Statement {
    Statement::InsertCounter {
        user_id,
        name: name.to_string(),
        value: 0,
        step: 1,
        input_step: false,
        sequence,
    }
}

#[test]
fn a_new_store_is_empty_and_idle() {
    let store = Store::new();
    assert!(store.tables().users.is_empty());
    assert!(store.tables().counters.is_empty());
    assert!(store.tables().records.is_empty());
    assert!(!store.in_transaction());
}

#[test]
fn rollback_restores_and_commit_keeps() {
    let mut store = Store::new();
    assert_eq!(store.execute(&Statement::Begin), Reply::Done);
    assert!(matches!(store.execute(&insert(1, "a", 1)), Reply::Counter(_)));
    assert_eq!(store.tables().counters.len(), 1);
    assert_eq!(store.execute(&Statement::Rollback), Reply::Done);
    assert!(store.tables().counters.is_empty());
    assert!(!store.in_transaction());

    assert_eq!(store.execute(&Statement::Begin), Reply::Done);
    store.execute(&insert(1, "a", 1));
    assert_eq!(store.execute(&Statement::Commit), Reply::Done);
    assert_eq!(store.tables().counters.len(), 1);
    assert!(!store.in_transaction());
}

#[test]
fn transactions_do_not_nest_and_do_not_close_twice() {
    let mut store = Store::new();
    assert_eq!(
        store.execute(&Statement::Commit),
        Reply::Failed("no transaction is open".to_string())
    );
    assert_eq!(
        store.execute(&Statement::Rollback),
        Reply::Failed("no transaction is open".to_string())
    );
    assert_eq!(store.execute(&Statement::Begin), Reply::Done);
    assert_eq!(
        store.execute(&Statement::Begin),
        Reply::Failed("a transaction is already open".to_string())
    );
    assert!(store.in_transaction());
}

#[test]
fn lookup_is_by_id_and_owner_together() {
    let mut store = Store::new();
    store.execute(&insert(7, "a", 1));
    assert!(matches!(
        store.execute(&Statement::CounterOfOwner { id: 1, user_id: 7 }),
        Reply::Counter(Counter { id: 1, user_id: 7, .. })
    ));
    assert_eq!(store.execute(&Statement::CounterOfOwner { id: 1, user_id: 5 }), Reply::NoRow);
    assert_eq!(store.execute(&Statement::CounterOfOwner { id: 2, user_id: 7 }), Reply::NoRow);
}

#[test]
fn top_sequence_is_the_owners_highest() {
    let mut store = Store::new();
    assert_eq!(store.execute(&Statement::TopSequence { user_id: 1 }), Reply::NoRow);
    store.execute(&insert(1, "a", 4));
    store.execute(&insert(2, "b", 9));
    store.execute(&insert(1, "c", -2));
    assert_eq!(store.execute(&Statement::TopSequence { user_id: 1 }), Reply::Sequence(4));
    assert_eq!(store.execute(&Statement::TopSequence { user_id: 2 }), Reply::Sequence(9));
    assert_eq!(store.execute(&Statement::TopSequence { user_id: 3 }), Reply::NoRow);
}

#[test]
fn updates_of_a_missing_row_are_done_and_change_nothing() {
    let mut store = Store::new();
    store.execute(&insert(1, "a", 1));
    let before = store.tables().clone();
    assert_eq!(store.execute(&Statement::SetValue { id: 9, value: 3 }), Reply::Done);
    assert_eq!(store.execute(&Statement::SetSequence { id: 9, sequence: 3 }), Reply::Done);
    assert_eq!(store.execute(&Statement::DeleteCounter { id: 9 }), Reply::Done);
    assert_eq!(
        store.execute(&Statement::Reconfigure {
            id: 9,
            name: "x".to_string(),
            step: 1,
            input_step: true
        }),
        Reply::Done
    );
    assert_eq!(*store.tables(), before);
}

#[test]
fn writes_are_stamped_with_the_clock() {
    let mut store = Store::new();
    store.set_clock(11);
    store.execute(&insert(1, "a", 1));
    store.set_clock(22);
    store.execute(&Statement::SetValue { id: 1, value: 5 });
    store.execute(&Statement::InsertRecord { counter_id: 1, step: 5, begin: 0, end: 5 });
    let row = &store.tables().counters[0];
    assert_eq!((row.created_at, row.updated_at, row.value), (11, 22, 5));
    let entry = store.tables().records[0];
    assert_eq!((entry.created_at, entry.updated_at), (22, 22));
}

#[test]
fn ids_count_up_from_one_past_the_newest_row() {
    let mut store = Store::new();
    store.execute(&insert(1, "a", 1));
    store.execute(&insert(1, "b", 2));
    store.execute(&insert(1, "c", 3));
    store.execute(&Statement::DeleteCounter { id: 2 });
    store.execute(&insert(1, "d", 4));
    let ids: Vec<i32> = store.tables().counters.iter().map(|row| row.id).collect();
    assert_eq!(ids, vec![1, 3, 4]);
}

#[test]
fn users_are_found_by_subject() {
    let mut store = Store::new();
    store.set_clock(3);
    let who = Statement::UserByOpenid { openid: "o-1".to_string() };
    assert_eq!(store.execute(&who), Reply::NoRow);
    assert_eq!(
        store.execute(&Statement::InsertUser {
            openid: "o-1".to_string(),
            session_key: "k".to_string()
        }),
        Reply::Done
    );
    assert_eq!(
        store.execute(&who),
        Reply::User(User {
            id: 1,
            openid: "o-1".to_string(),
            session_key: "k".to_string(),
            created_at: 3,
            updated_at: 3,
        })
    );
    assert_eq!(
        store.execute(&Statement::UserByOpenid { openid: "o-2".to_string() }),
        Reply::NoRow
    );
}

#[test]
fn records_come_newest_first_and_delete_takes_one_history() {
    let mut store = Store::new();
    for (counter_id, step) in [(1, 1), (2, 5), (1, 2), (1, 3)] {
        store.execute(&Statement::InsertRecord { counter_id, step, begin: 0, end: step });
    }
    let steps = |reply: Reply| match reply {
        Reply::Records(rows) => rows.iter().map(|row| (row.id, row.step)).collect::<Vec<_>>(),
        other => panic!("records were expected, not {:?}", other),
    };
    assert_eq!(
        steps(store.execute(&Statement::RecordsOfCounter { counter_id: 1 })),
        vec![(4, 3), (3, 2), (1, 1)]
    );
    assert_eq!(store.execute(&Statement::DeleteRecords { counter_id: 1 }), Reply::Done);
    assert_eq!(steps(store.execute(&Statement::RecordsOfCounter { counter_id: 1 })), vec![]);
    assert_eq!(
        steps(store.execute(&Statement::RecordsOfCounter { counter_id: 2 })),
        vec![(2, 5)]
    );
}

#[test]
fn statements_bind_as_many_values_as_their_text_has_marks() {
    let statements = vec![
        Statement::Begin,
        Statement::Commit,
        Statement::Rollback,
        Statement::CounterOfOwner { id: 1, user_id: 2 },
        Statement::CountersOfOwner { user_id: 2 },
        Statement::TopSequence { user_id: 2 },
        insert(2, "a", 1),
        Statement::Reconfigure { id: 1, name: "b".to_string(), step: 1, input_step: true },
        Statement::SetSequence { id: 1, sequence: 2 },
        Statement::SetValue { id: 1, value: 2 },
        Statement::InsertRecord { counter_id: 1, step: 1, begin: 0, end: 1 },
        Statement::DeleteRecords { counter_id: 1 },
        Statement::DeleteCounter { id: 1 },
        Statement::RecordsOfCounter { counter_id: 1 },
        Statement::UserByOpenid { openid: "o".to_string() },
        Statement::InsertUser { openid: "o".to_string(), session_key: "k".to_string() },
    ];
    for statement in statements {
        let marks = statement.sql().matches('?').count();
        assert_eq!(statement.binds().len(), marks, "{}", statement.sql());
    }
}

#[test]
fn the_guard_statement_filters_by_both_columns() {
    let statement = Statement::CounterOfOwner { id: 4, user_id: 9 };
    assert_eq!(statement.sql(), "select * from counters where id = ? and user_id = ?");
    assert_eq!(statement.binds(), vec![Bind::Int(4), Bind::Int(9)]);
    assert_eq!(statement.shape(), Shape::OneCounter);
}

#[test]
fn binds_follow_the_order_of_the_text() {
    assert_eq!(
        insert(2, "a", 7).binds(),
        vec![
            Bind::Int(2),
            Bind::Text("a".to_string()),
            Bind::Int(0),
            Bind::Int(1),
            Bind::Flag(false),
            Bind::Int(7),
        ]
    );
    assert_eq!(
        Statement::SetValue { id: 3, value: 8 }.binds(),
        vec![Bind::Int(8), Bind::Int(3)]
    );
    assert_eq!(
        Statement::Reconfigure { id: 3, name: "n".to_string(), step: 2, input_step: true }.binds(),
        vec![Bind::Text("n".to_string()), Bind::Int(2), Bind::Flag(true), Bind::Int(3)]
    );
}

#[test]
fn shapes() {
    assert_eq!(Statement::Begin.shape(), Shape::Nothing);
    assert_eq!(Statement::CountersOfOwner { user_id: 1 }.shape(), Shape::Counters);
    assert_eq!(Statement::TopSequence { user_id: 1 }.shape(), Shape::OneSequence);
    assert_eq!(Statement::RecordsOfCounter { counter_id: 1 }.shape(), Shape::Records);
    assert_eq!(Statement::UserByOpenid { openid: "o".to_string() }.shape(), Shape::OneUser);
    assert_eq!(insert(1, "a", 1).shape(), Shape::OneCounter);
    assert_eq!(Statement::SetValue { id: 1, value: 1 }.shape(), Shape::Nothing);
}
