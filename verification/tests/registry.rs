use std::sync::Arc;
use std::sync::Mutex;

use typed_log::loggable::same_key;
use typed_log::loggable::type_key_of;
use typed_log::CatchAllRegistry;
use typed_log::Erased;
use typed_log::LogFn;
use typed_log::Loggable;
use typed_log::TypedRegistry;

struct Garden {
    flower_amount: usize,
}

impl Loggable for Garden {}

struct Shed {
    tools: usize,
}

impl Loggable for Shed {}

fn recorder(log: &Arc<Mutex<Vec<String>>>, name: &'static str) -> LogFn {
    let sink = log.clone();
    LogFn::catch_all(move |_: &Erased| {
        sink.lock().unwrap().push(name.to_string());
    })
}

fn run_all(handlers: &[LogFn], value: &Erased) {
    for handler in handlers {
        handler.call(value);
    }
}

#[test]
fn downcast_recovers_the_value_of_the_right_type() {
    let garden = Garden { flower_amount: 10 };
    let erased = Erased::new(&garden);
    let back = erased.downcast_ref::<Garden>();
    assert!(back.is_some());
    assert_eq!(back.unwrap().flower_amount, 10);
    assert!(std::ptr::eq(back.unwrap(), &garden));
}

#[test]
fn downcast_declines_another_type() {
    let shed = Shed { tools: 4 };
    let erased = Erased::new(&shed);
    assert!(erased.downcast_ref::<Garden>().is_none());
    assert_eq!(erased.downcast_ref::<Shed>().unwrap().tools, 4);
}

#[test]
fn type_keys_tell_types_apart() {
    assert!(same_key(&type_key_of::<Garden>(), &type_key_of::<Garden>()));
    assert!(!same_key(&type_key_of::<Garden>(), &type_key_of::<Shed>()));
    assert!(!same_key(&type_key_of::<Shed>(), &type_key_of::<Garden>()));
}

#[test]
fn type_key_is_the_std_type_id() {
    assert_eq!(type_key_of::<Garden>(), std::any::TypeId::of::<Garden>());
    assert_eq!(type_key_of::<Shed>(), std::any::TypeId::of::<Shed>());
}

#[test]
fn lookup_of_unknown_type_is_empty() {
    let mut typed = TypedRegistry::new();
    assert_eq!(typed.lookup(&type_key_of::<Garden>()).len(), 0);

    let log = Arc::new(Mutex::new(Vec::new()));
    typed.register(type_key_of::<Shed>(), recorder(&log, "shed"));
    assert_eq!(typed.lookup(&type_key_of::<Garden>()).len(), 0);
    assert_eq!(typed.lookup(&type_key_of::<Shed>()).len(), 1);
}

#[test]
fn registering_appends_and_never_replaces() {
    let log = Arc::new(Mutex::new(Vec::new()));
    let mut typed = TypedRegistry::new();
    let key = type_key_of::<Garden>();

    typed.register(key, recorder(&log, "a"));
    assert_eq!(typed.lookup(&key).len(), 1);
    typed.register(type_key_of::<Shed>(), recorder(&log, "other"));
    typed.register(key, recorder(&log, "b"));
    typed.register(key, recorder(&log, "c"));
    assert_eq!(typed.lookup(&key).len(), 3);
    assert_eq!(typed.lookup(&type_key_of::<Shed>()).len(), 1);

    let garden = Garden { flower_amount: 1 };
    run_all(typed.lookup(&key), &Erased::new(&garden));
    assert_eq!(
        log.lock().unwrap().clone(),
        vec!["a".to_string(), "b".to_string(), "c".to_string()]
    );
}

#[test]
fn catch_all_registry_keeps_registration_order() {
    let log = Arc::new(Mutex::new(Vec::new()));
    let mut catch_all = CatchAllRegistry::new();
    assert_eq!(catch_all.handlers().len(), 0);

    catch_all.register(recorder(&log, "x"));
    catch_all.register(recorder(&log, "y"));
    assert_eq!(catch_all.handlers().len(), 2);

    let shed = Shed { tools: 0 };
    run_all(catch_all.handlers(), &Erased::new(&shed));
    assert_eq!(log.lock().unwrap().clone(), vec!["x".to_string(), "y".to_string()]);
}

#[test]
fn typed_handler_declines_a_value_of_another_type() {
    let log = Arc::new(Mutex::new(Vec::new()));
    let sink = log.clone();
    let handler = LogFn::typed(move |garden: &Garden| {
        sink.lock().unwrap().push(garden.flower_amount);
    });

    let shed = Shed { tools: 9 };
    handler.call(&Erased::new(&shed));
    assert!(log.lock().unwrap().is_empty());

    let garden = Garden { flower_amount: 5 };
    handler.call(&Erased::new(&garden));
    assert_eq!(log.lock().unwrap().clone(), vec![5]);
}

#[test]
fn catch_all_handler_can_filter_by_type() {
    let log = Arc::new(Mutex::new(Vec::new()));
    let sink = log.clone();
    let handler = LogFn::catch_all(move |value: &Erased| {
        if let Some(shed) = value.downcast_ref::<Shed>() {
            sink.lock().unwrap().push(shed.tools);
        }
    });

    handler.call(&Erased::new(&Garden { flower_amount: 5 }));
    handler.call(&Erased::new(&Shed { tools: 2 }));
    assert_eq!(log.lock().unwrap().clone(), vec![2]);
}
