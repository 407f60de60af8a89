use wx_counter::api::counter;
use wx_counter::api::counter::{AddPayload, UpdatePayload};
use wx_counter::api::counter_record;
use wx_counter::api::jwt::Uid;
use wx_counter::api::ApiError;
use wx_counter::db::statement::{Reply, Statement};
use wx_counter::db::store::Store;
use wx_counter::db::{Counter, CounterRecord};

fn payload(name: &str, value: i32, step: i32, input_step: bool) -> AddPayload {
    AddPayload { name: name.to_string(), value, step, input_step }
}

fn delta(counter_id: i32, step: i32) -> counter_record::AddPayload {
    counter_record::AddPayload { counter_id, step }
}

fn record(id: i32, counter_id: i32, begin: i32, end: i32, step: i32, at: i64) -> CounterRecord {
    CounterRecord { id, counter_id, step, begin, end, created_at: at, updated_at: at }
}

#[test]
fn pushups_scenario() {
    let mut store = Store::new();
    store.set_clock(100);
    let made = counter::add(Uid(1), &mut store, payload("pushups", 0, 10, true)).unwrap();
    assert_eq!(
        made,
        Counter {
            id: 1,
            user_id: 1,
            name: "pushups".to_string(),
            value: 0,
            step: 10,
            input_step: true,
            sequence: 1,
            created_at: 100,
            updated_at: 100,
        }
    );

    store.set_clock(200);
    assert_eq!(counter_record::add(Uid(1), &mut store, delta(1, 10)), Ok(()));
    assert_eq!(counter::show(Uid(1), &mut store, 1).unwrap().value, 10);
    assert_eq!(
        counter_record::list(Uid(1), &mut store, 1),
        Ok(vec![record(1, 1, 0, 10, 10, 200)])
    );

    store.set_clock(300);
    assert_eq!(counter_record::add(Uid(1), &mut store, delta(1, -3)), Ok(()));
    let shown = counter::show(Uid(1), &mut store, 1).unwrap();
    assert_eq!(shown.value, 7);
    assert_eq!(shown.updated_at, 300);
    assert_eq!(shown.created_at, 100);
    assert_eq!(
        counter_record::list(Uid(1), &mut store, 1),
        Ok(vec![record(2, 1, 10, 7, -3, 300), record(1, 1, 0, 10, 10, 200)])
    );

    // Alone in its owner's list, the counter is brought to the top by the
    // rule that holds for every list: one above the highest sequence.
    assert_eq!(counter::top(1, Uid(1), &mut store), Ok(()));
    assert_eq!(counter::show(Uid(1), &mut store, 1).unwrap().sequence, 2);

    assert_eq!(counter::destroy(Uid(1), &mut store, 1), Ok(()));
    assert_eq!(counter::show(Uid(1), &mut store, 1), Err(ApiError::NotFound));
    assert_eq!(counter_record::list(Uid(1), &mut store, 1), Err(ApiError::NotFound));
    assert!(store.tables().counters.is_empty());
    assert!(store.tables().records.is_empty());
}

#[test]
fn top_goes_above_a_second_counter() {
    let mut store = Store::new();
    let first = counter::add(Uid(1), &mut store, payload("pushups", 0, 10, true)).unwrap();
    let second = counter::add(Uid(1), &mut store, payload("squats", 0, 5, false)).unwrap();
    assert_eq!(first.sequence, 1);
    assert_eq!(second.sequence, 2);
    assert_eq!(counter::top(first.id, Uid(1), &mut store), Ok(()));
    assert_eq!(counter::show(Uid(1), &mut store, first.id).unwrap().sequence, 3);
    assert_eq!(counter::show(Uid(1), &mut store, second.id).unwrap().sequence, 2);
}

#[test]
fn top_goes_to_two_above_a_second_counter_with_sequence_one() {
    let mut store = Store::new();
    let first = counter::add(Uid(1), &mut store, payload("pushups", 0, 10, true)).unwrap();
    let second = counter::add(Uid(1), &mut store, payload("squats", 0, 5, false)).unwrap();
    store.execute(&Statement::SetSequence { id: second.id, sequence: 1 });
    assert_eq!(counter::top(first.id, Uid(1), &mut store), Ok(()));
    assert_eq!(counter::show(Uid(1), &mut store, first.id).unwrap().sequence, 2);
    assert_eq!(counter::show(Uid(1), &mut store, second.id).unwrap().sequence, 1);
}

#[test]
fn first_counter_of_each_owner_has_sequence_one() {
    let mut store = Store::new();
    let a = counter::add(Uid(1), &mut store, payload("a", 0, 1, false)).unwrap();
    let b = counter::add(Uid(2), &mut store, payload("b", 0, 1, false)).unwrap();
    let c = counter::add(Uid(1), &mut store, payload("c", 0, 1, false)).unwrap();
    assert_eq!((a.id, a.sequence), (1, 1));
    assert_eq!((b.id, b.sequence), (2, 1));
    assert_eq!((c.id, c.sequence), (3, 2));
}

#[test]
fn names_may_repeat() {
    let mut store = Store::new();
    let a = counter::add(Uid(1), &mut store, payload("same", 0, 1, false)).unwrap();
    let b = counter::add(Uid(1), &mut store, payload("same", 0, 1, false)).unwrap();
    assert_ne!(a.id, b.id);
    assert_eq!(a.name, b.name);
}

#[test]
fn a_counter_of_another_owner_is_not_found() {
    let mut store = Store::new();
    let made = counter::add(Uid(7), &mut store, payload("private", 3, 1, false)).unwrap();
    let before = store.tables().clone();

    assert_eq!(counter::show(Uid(5), &mut store, made.id), Err(ApiError::NotFound));
    assert_eq!(
        counter::get_user_counter(made.id, 5, &mut store),
        Err(ApiError::NotFound)
    );
    assert_eq!(
        counter::update(
            made.id,
            Uid(5),
            &mut store,
            UpdatePayload { name: "stolen".to_string(), step: 9, input_step: true }
        ),
        Err(ApiError::NotFound)
    );
    assert_eq!(counter::top(made.id, Uid(5), &mut store), Err(ApiError::NotFound));
    assert_eq!(
        counter_record::add(Uid(5), &mut store, delta(made.id, 4)),
        Err(ApiError::NotFound)
    );
    assert_eq!(counter_record::list(Uid(5), &mut store, made.id), Err(ApiError::NotFound));
    assert_eq!(counter::destroy(Uid(5), &mut store, made.id), Err(ApiError::NotFound));

    assert_eq!(*store.tables(), before);
    assert!(!store.in_transaction());
    assert_eq!(counter::show(Uid(7), &mut store, made.id), Ok(made));
}

#[test]
fn a_counter_that_does_not_exist_is_not_found_in_the_same_way() {
    let mut store = Store::new();
    counter::add(Uid(7), &mut store, payload("private", 3, 1, false)).unwrap();
    let missing = counter::show(Uid(5), &mut store, 99).unwrap_err();
    let foreign = counter::show(Uid(5), &mut store, 1).unwrap_err();
    assert_eq!(missing, foreign);
    assert_eq!(missing.status(), foreign.status());
    assert_eq!(missing.message(), foreign.message());
}

#[test]
fn value_is_start_plus_sum_of_steps() {
    let mut store = Store::new();
    let made = counter::add(Uid(1), &mut store, payload("steps", 40, 1, true)).unwrap();
    let steps = [5, -12, 0, 7, -40, 1000];
    let mut expected = 40;
    for step in steps {
        assert_eq!(counter_record::add(Uid(1), &mut store, delta(made.id, step)), Ok(()));
        expected += step;
        assert_eq!(counter::show(Uid(1), &mut store, made.id).unwrap().value, expected);
    }
    assert_eq!(expected, 1000);

    let mut history = counter_record::list(Uid(1), &mut store, made.id).unwrap();
    history.reverse();
    assert_eq!(history.len(), steps.len());
    let mut value = 40;
    for (entry, step) in history.iter().zip(steps) {
        assert_eq!(entry.begin, value);
        assert_eq!(entry.step, step);
        assert_eq!(entry.end - entry.begin, entry.step);
        value = entry.end;
    }
    assert_eq!(value, 1000);
}

#[test]
fn histories_of_two_counters_do_not_mix() {
    let mut store = Store::new();
    let a = counter::add(Uid(1), &mut store, payload("a", 0, 1, false)).unwrap();
    let b = counter::add(Uid(1), &mut store, payload("b", 100, 1, false)).unwrap();
    counter_record::add(Uid(1), &mut store, delta(a.id, 1)).unwrap();
    counter_record::add(Uid(1), &mut store, delta(b.id, -1)).unwrap();
    counter_record::add(Uid(1), &mut store, delta(a.id, 2)).unwrap();
    assert_eq!(
        counter_record::list(Uid(1), &mut store, a.id).unwrap(),
        vec![record(3, a.id, 1, 3, 2, 0), record(1, a.id, 0, 1, 1, 0)]
    );
    assert_eq!(
        counter_record::list(Uid(1), &mut store, b.id).unwrap(),
        vec![record(2, b.id, 100, 99, -1, 0)]
    );
}

#[test]
fn a_step_beyond_the_integers_is_refused_and_changes_nothing() {
    let mut store = Store::new();
    let made = counter::add(Uid(1), &mut store, payload("big", i32::MAX - 1, 1, false)).unwrap();
    assert_eq!(counter_record::add(Uid(1), &mut store, delta(made.id, 1)), Ok(()));
    let before = store.tables().clone();
    let refused = counter_record::add(Uid(1), &mut store, delta(made.id, 1)).unwrap_err();
    assert_eq!(
        refused,
        ApiError::Internal("the result does not fit the store's integers".to_string())
    );
    assert_eq!(refused.status(), 500);
    assert_eq!(*store.tables(), before);
    assert!(!store.in_transaction());

    let low = counter::add(Uid(1), &mut store, payload("small", i32::MIN, 1, false)).unwrap();
    assert!(counter_record::add(Uid(1), &mut store, delta(low.id, -1)).is_err());
    assert_eq!(counter::show(Uid(1), &mut store, low.id).unwrap().value, i32::MIN);
}

#[test]
fn a_sequence_beyond_the_integers_is_refused() {
    let mut store = Store::new();
    let made = counter::add(Uid(1), &mut store, payload("a", 0, 1, false)).unwrap();
    assert_eq!(
        store.execute(&Statement::SetSequence { id: made.id, sequence: i32::MAX }),
        Reply::Done
    );
    let before = store.tables().clone();
    assert_eq!(
        counter::top(made.id, Uid(1), &mut store),
        Err(ApiError::Internal("the result does not fit the store's integers".to_string()))
    );
    assert_eq!(
        counter::add(Uid(1), &mut store, payload("b", 0, 1, false)),
        Err(ApiError::Internal("the result does not fit the store's integers".to_string()))
    );
    assert_eq!(*store.tables(), before);
}

#[test]
fn update_touches_name_and_stepping_only() {
    let mut store = Store::new();
    store.set_clock(10);
    let made = counter::add(Uid(1), &mut store, payload("old", 4, 1, false)).unwrap();
    counter_record::add(Uid(1), &mut store, delta(made.id, 6)).unwrap();
    let records = store.tables().records.clone();
    store.set_clock(20);
    assert_eq!(
        counter::update(
            made.id,
            Uid(1),
            &mut store,
            UpdatePayload { name: "new".to_string(), step: 3, input_step: true }
        ),
        Ok(())
    );
    assert_eq!(
        counter::show(Uid(1), &mut store, made.id),
        Ok(Counter {
            id: made.id,
            user_id: 1,
            name: "new".to_string(),
            value: 10,
            step: 3,
            input_step: true,
            sequence: 1,
            created_at: 10,
            updated_at: 20,
        })
    );
    assert_eq!(store.tables().records, records);
}

#[test]
fn top_changes_no_other_counter() {
    let mut store = Store::new();
    let a = counter::add(Uid(1), &mut store, payload("a", 0, 1, false)).unwrap();
    let b = counter::add(Uid(1), &mut store, payload("b", 0, 1, false)).unwrap();
    let c = counter::add(Uid(2), &mut store, payload("c", 0, 1, false)).unwrap();
    store.set_clock(5);
    counter::top(a.id, Uid(1), &mut store).unwrap();
    assert_eq!(counter::show(Uid(1), &mut store, b.id), Ok(b));
    assert_eq!(counter::show(Uid(2), &mut store, c.id), Ok(c));
    let topped = counter::show(Uid(1), &mut store, a.id).unwrap();
    assert_eq!(topped, Counter { sequence: 3, updated_at: 5, ..a });
}

#[test]
fn each_top_ends_highest_among_its_owner() {
    let mut store = Store::new();
    let mut ids = Vec::new();
    for name in ["a", "b", "c", "d"] {
        ids.push(counter::add(Uid(1), &mut store, payload(name, 0, 1, false)).unwrap().id);
    }
    counter::add(Uid(2), &mut store, payload("far", 0, 1, false)).unwrap();
    for target in [ids[1], ids[3], ids[1], ids[0], ids[0], ids[2]] {
        counter::top(target, Uid(1), &mut store).unwrap();
        let mine = counter::list(Uid(1), &mut store).unwrap();
        assert_eq!(mine[0].id, target);
        for other in &mine[1..] {
            assert!(other.sequence < mine[0].sequence);
        }
    }
    assert_eq!(counter::list(Uid(2), &mut store).unwrap()[0].sequence, 1);
}

#[test]
fn list_is_by_sequence_then_id_both_descending() {
    let mut store = Store::new();
    let a = counter::add(Uid(1), &mut store, payload("a", 0, 1, false)).unwrap();
    let b = counter::add(Uid(1), &mut store, payload("b", 0, 1, false)).unwrap();
    let c = counter::add(Uid(1), &mut store, payload("c", 0, 1, false)).unwrap();
    counter::add(Uid(2), &mut store, payload("d", 0, 1, false)).unwrap();
    // Give `a` the sequence that `c` has: among equals the higher id leads.
    store.execute(&Statement::SetSequence { id: a.id, sequence: c.sequence });
    let order: Vec<i32> =
        counter::list(Uid(1), &mut store).unwrap().iter().map(|row| row.id).collect();
    assert_eq!(order, vec![c.id, a.id, b.id]);
    assert_eq!(counter::list(Uid(3), &mut store), Ok(vec![]));
}

#[test]
fn destroy_purges_the_history_and_only_that_one() {
    let mut store = Store::new();
    let a = counter::add(Uid(1), &mut store, payload("a", 0, 1, false)).unwrap();
    let b = counter::add(Uid(1), &mut store, payload("b", 0, 1, false)).unwrap();
    for step in [1, 2, 3] {
        counter_record::add(Uid(1), &mut store, delta(a.id, step)).unwrap();
        counter_record::add(Uid(1), &mut store, delta(b.id, -step)).unwrap();
    }
    counter::destroy(Uid(1), &mut store, a.id).unwrap();
    assert!(store.tables().records.iter().all(|entry| entry.counter_id == b.id));
    assert_eq!(counter_record::list(Uid(1), &mut store, b.id).unwrap().len(), 3);
    assert_eq!(counter::show(Uid(1), &mut store, b.id).unwrap().value, -6);
    assert_eq!(counter::destroy(Uid(1), &mut store, a.id), Err(ApiError::NotFound));
}

#[test]
fn a_counter_made_after_a_removal_starts_without_history() {
    let mut store = Store::new();
    let a = counter::add(Uid(1), &mut store, payload("a", 0, 1, false)).unwrap();
    counter_record::add(Uid(1), &mut store, delta(a.id, 1)).unwrap();
    counter::destroy(Uid(1), &mut store, a.id).unwrap();
    let again = counter::add(Uid(1), &mut store, payload("again", 0, 1, false)).unwrap();
    assert_eq!(again.sequence, 1);
    assert_eq!(counter_record::list(Uid(1), &mut store, again.id), Ok(vec![]));
}

#[test]
fn a_request_that_writes_inside_an_open_transaction_is_refused() {
    let mut store = Store::new();
    let made = counter::add(Uid(1), &mut store, payload("a", 0, 1, false)).unwrap();
    assert_eq!(store.execute(&Statement::Begin), Reply::Done);
    let busy = ApiError::Internal("a transaction is already open".to_string());
    assert_eq!(counter::top(made.id, Uid(1), &mut store), Err(busy));
    assert!(store.in_transaction());
    // Reading needs no transaction of its own.
    assert_eq!(counter::show(Uid(1), &mut store, made.id), Ok(made));
}
