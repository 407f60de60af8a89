use wx_counter::api::counter::{AddPayload, UpdatePayload};
use wx_counter::api::counter_record;
use wx_counter::api::exchange::{serve, Answer, Exchange, Request, Stage, Step};
use wx_counter::api::ApiError;
use wx_counter::db::statement::{Reply, Statement};
use wx_counter::db::store::{Store, Tables};
use wx_counter::db::Counter;

/// Holds a request's conversation with the store, and fails the statement
/// that is `fault` statements from the first, as a store that is out of
/// order would. Gives the statements sent and the request's end.
fn converse(
    store: &mut Store,
    request: Request,
    fault: Option<usize>,
) -> (Vec<Statement>, Result<Answer, ApiError>) {
    let mut sent = Vec::new();
    let mut step = Exchange::open(request);
    loop {
        match step {
            Step::Finish(end) => return (sent, end),
            Step::Ask(exchange, statement) => {
                let reply = if fault == Some(sent.len()) && statement != Statement::Rollback {
                    Reply::Failed("disk I/O error".to_string())
                } else {
                    store.execute(&statement)
                };
                sent.push(statement);
                step = exchange.resume(reply);
            }
        }
    }
}

fn seeded() -> (Store, Counter) {
    let mut store = Store::new();
    let made = serve(
        &mut store,
        Request::Add {
            uid: 1,
            payload: AddPayload { name: "pushups".to_string(), value: 0, step: 10, input_step: true },
        },
    );
    match made {
        Ok(Answer::Counter(row)) => (store, row),
        other => panic!("the counter was not added: {:?}", other),
    }
}

fn change(id: i32, step: i32) -> Request {
    Request::AddRecord { uid: 1, delta: counter_record::AddPayload { counter_id: id, step } }
}

fn snapshot(store: &Store) -> Tables {
    store.tables().clone()
}

#[test]
fn a_change_of_value_is_five_statements_in_one_transaction() {
    let (mut store, row) = seeded();
    let (sent, end) = converse(&mut store, change(row.id, 10), None);
    assert_eq!(end, Ok(Answer::Empty));
    assert_eq!(
        sent,
        vec![
            Statement::Begin,
            Statement::CounterOfOwner { id: row.id, user_id: 1 },
            Statement::InsertRecord { counter_id: row.id, step: 10, begin: 0, end: 10 },
            Statement::SetValue { id: row.id, value: 10 },
            Statement::Commit,
        ]
    );
    assert!(!store.in_transaction());
}

#[test]
fn a_failure_between_record_and_value_leaves_neither() {
    let (mut store, row) = seeded();
    let before = snapshot(&store);
    let (sent, end) = converse(&mut store, change(row.id, 10), Some(3));
    assert_eq!(end, Err(ApiError::Internal("disk I/O error".to_string())));
    assert_eq!(sent.len(), 5);
    assert_eq!(sent[2], Statement::InsertRecord { counter_id: row.id, step: 10, begin: 0, end: 10 });
    assert_eq!(sent[3], Statement::SetValue { id: row.id, value: 10 });
    assert_eq!(sent[4], Statement::Rollback);
    assert_eq!(snapshot(&store), before);
    assert!(store.tables().records.is_empty());
    assert_eq!(store.tables().counters[0].value, 0);
    assert!(!store.in_transaction());
}

#[test]
fn a_failure_at_any_statement_of_any_request_leaves_the_store_as_it_was() {
    let requests: Vec<fn(i32) -> Request> = vec![
        |_| Request::List { uid: 1 },
        |_| Request::Add {
            uid: 1,
            payload: AddPayload { name: "n".to_string(), value: 1, step: 1, input_step: false },
        },
        |id| Request::Show { uid: 1, id },
        |id| Request::Update {
            uid: 1,
            id,
            change: UpdatePayload { name: "n".to_string(), step: 2, input_step: false },
        },
        |id| Request::Destroy { uid: 1, id },
        |id| Request::Top { uid: 1, id },
        |id| change(id, 4),
        |id| Request::ListRecords { uid: 1, id },
    ];
    for make in requests {
        let (mut clean, row) = seeded();
        serve(&mut clean, change(row.id, 1)).unwrap();
        let (statements, _) = converse(&mut clean, make(row.id), None);
        for fault in 0..statements.len() {
            let (mut store, row) = seeded();
            serve(&mut store, change(row.id, 1)).unwrap();
            let before = snapshot(&store);
            let (_, end) = converse(&mut store, make(row.id), Some(fault));
            assert_eq!(end, Err(ApiError::Internal("disk I/O error".to_string())));
            assert_eq!(snapshot(&store), before);
            assert!(!store.in_transaction());
        }
    }
}

#[test]
fn a_failed_delete_keeps_counter_and_history() {
    let (mut store, row) = seeded();
    serve(&mut store, change(row.id, 3)).unwrap();
    let before = snapshot(&store);
    // The records are gone from the live tables when the counter's own
    // delete fails; the rollback brings them back.
    let (sent, end) = converse(&mut store, Request::Destroy { uid: 1, id: row.id }, Some(3));
    assert_eq!(sent[2], Statement::DeleteRecords { counter_id: row.id });
    assert_eq!(sent[3], Statement::DeleteCounter { id: row.id });
    assert_eq!(sent[4], Statement::Rollback);
    assert!(end.is_err());
    assert_eq!(snapshot(&store), before);
    assert_eq!(store.tables().records.len(), 1);
}

#[test]
fn reads_open_no_transaction() {
    let (mut store, row) = seeded();
    let (sent, end) = converse(&mut store, Request::Show { uid: 1, id: row.id }, None);
    assert_eq!(sent, vec![Statement::CounterOfOwner { id: row.id, user_id: 1 }]);
    assert_eq!(end, Ok(Answer::Counter(row)));
    let (sent, end) = converse(&mut store, Request::List { uid: 2 }, None);
    assert_eq!(sent, vec![Statement::CountersOfOwner { user_id: 2 }]);
    assert_eq!(end, Ok(Answer::Counters(vec![])));
    let (sent, end) = converse(&mut store, Request::ListRecords { uid: 1, id: 1 }, None);
    assert_eq!(
        sent,
        vec![
            Statement::CounterOfOwner { id: 1, user_id: 1 },
            Statement::RecordsOfCounter { counter_id: 1 },
        ]
    );
    assert_eq!(end, Ok(Answer::Records(vec![])));
}

#[test]
fn every_lookup_of_a_counter_names_its_owner() {
    let ids = [3, 4, 5, 6, 7];
    let requests = vec![
        Request::Show { uid: 9, id: ids[0] },
        Request::Update {
            uid: 9,
            id: ids[1],
            change: UpdatePayload { name: "n".to_string(), step: 2, input_step: false },
        },
        Request::Destroy { uid: 9, id: ids[2] },
        Request::Top { uid: 9, id: ids[3] },
        Request::AddRecord { uid: 9, delta: counter_record::AddPayload { counter_id: ids[4], step: 1 } },
    ];
    for (request, id) in requests.into_iter().zip(ids) {
        let mut store = Store::new();
        let (sent, end) = converse(&mut store, request, None);
        let guard = Statement::CounterOfOwner { id, user_id: 9 };
        assert!(sent.contains(&guard));
        assert!(sent.iter().all(|statement| *statement == guard
            || matches!(statement, Statement::Begin | Statement::Rollback)));
        assert_eq!(end, Err(ApiError::NotFound));
    }
}

#[test]
fn a_row_of_another_owner_is_refused_whatever_the_store_says() {
    let step = Exchange::open(Request::Show { uid: 5, id: 1 });
    let exchange = match step {
        Step::Ask(exchange, _) => exchange,
        Step::Finish(_) => panic!("a lookup was expected"),
    };
    assert_eq!(exchange.stage, Stage::Guarding { id: 1 });
    let foreign = Counter {
        id: 1,
        user_id: 7,
        name: "private".to_string(),
        value: 0,
        step: 1,
        input_step: false,
        sequence: 1,
        created_at: 0,
        updated_at: 0,
    };
    assert_eq!(exchange.resume(Reply::Counter(foreign)), Step::Finish(Err(ApiError::NotFound)));
}

#[test]
fn a_reply_of_the_wrong_kind_is_an_internal_error() {
    let step = Exchange::open(Request::List { uid: 5 });
    let exchange = match step {
        Step::Ask(exchange, _) => exchange,
        Step::Finish(_) => panic!("a statement was expected"),
    };
    assert_eq!(
        exchange.resume(Reply::Sequence(3)),
        Step::Finish(Err(ApiError::Internal(
            "the store gave a reply that does not answer the statement".to_string()
        )))
    );
}

#[test]
fn a_store_that_will_not_begin_is_reported_without_a_rollback() {
    let mut store = Store::new();
    let (sent, end) = converse(&mut store, Request::Top { uid: 1, id: 1 }, Some(0));
    assert_eq!(sent, vec![Statement::Begin]);
    assert_eq!(end, Err(ApiError::Internal("disk I/O error".to_string())));
}

#[test]
fn request_accessors() {
    let request = change(4, 2);
    assert_eq!(request.owner(), 1);
    assert_eq!(request.target(), Some(4));
    assert!(request.is_write());
    let request = Request::List { uid: 3 };
    assert_eq!(request.owner(), 3);
    assert_eq!(request.target(), None);
    assert!(!request.is_write());
}
