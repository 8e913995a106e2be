use std::sync::Arc;
use std::sync::Mutex;
use std::sync::RwLock;

use typed_log::log_any;
use typed_log::push_log_any;
use typed_log::push_log_impl;
use typed_log::CatchAllRegistry;
use typed_log::Erased;
use typed_log::LogFn;
use typed_log::Loggable;
use typed_log::TypedRegistry;

struct Garden {
    flower_amount: usize,
}

impl Loggable for Garden {}

fn assert_shareable<T: Send + Sync + 'static>() {}

#[test]
fn registries_and_handlers_can_be_shared_between_threads() {
    assert_shareable::<LogFn>();
    assert_shareable::<TypedRegistry>();
    assert_shareable::<CatchAllRegistry>();
    assert_shareable::<RwLock<TypedRegistry>>();
    assert_shareable::<RwLock<CatchAllRegistry>>();
}

#[test]
fn registries_work_behind_reader_writer_locks() {
    let log = Arc::new(Mutex::new(Vec::new()));
    let typed = RwLock::new(TypedRegistry::new());
    let catch_all = RwLock::new(CatchAllRegistry::new());

    let sink = log.clone();
    push_log_impl(typed.write().ok().as_deref_mut(), move |garden: &Garden| {
        sink.lock().unwrap().push(format!("typed:{}", garden.flower_amount));
    });
    let sink = log.clone();
    push_log_any(catch_all.write().ok().as_deref_mut(), move |_: &Erased| {
        sink.lock().unwrap().push("any".to_string());
    });

    // Several readers at once.
    let first = typed.read().ok();
    let second = typed.read().ok();
    let all = catch_all.read().ok();
    log_any(first.as_deref(), all.as_deref(), &Garden { flower_amount: 1 });
    log_any(second.as_deref(), all.as_deref(), &Garden { flower_amount: 2 });

    assert_eq!(
        log.lock().unwrap().clone(),
        vec![
            "typed:1".to_string(),
            "any".to_string(),
            "typed:2".to_string(),
            "any".to_string(),
        ]
    );
}
