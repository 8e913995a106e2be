use crate::dispatch::catch_all_part;
use crate::dispatch::dispatch_plan;
use crate::dispatch::typed_part;
use crate::handler::catch_all_handler;
use crate::handler::catch_all_ran;
use crate::handler::lemma_catch_all_handler;
use crate::handler::lemma_typed_handler;
use crate::handler::typed_handler;
use crate::handler::LogFn;
use crate::loggable::erased;
use crate::loggable::type_key;
use crate::loggable::Erased;
use crate::loggable::ErasedView;
use crate::loggable::Loggable;
use crate::registry::handlers_for;
use crate::registry::with_handler;
use std::any::TypeId;
use vstd::prelude::*;

verus! {

/// The typed registry after the registrations `calls` have been made on it,
/// first to last. Each call names the identifier it registers under and the
/// handler it registers.
pub open spec fn registered(typed: Map<TypeId, Seq<LogFn>>, calls: Seq<(TypeId, LogFn)>) -> Map<
    TypeId,
    Seq<LogFn>,
>
    decreases calls.len(),
{
    if calls.len() == 0 {
        typed
    } else {
        with_handler(registered(typed, calls.drop_last()), calls.last().0, calls.last().1)
    }
}

/// The handlers that `calls` register under `key`, in the order of the calls.
pub open spec fn selected(calls: Seq<(TypeId, LogFn)>, key: TypeId) -> Seq<LogFn>
    decreases calls.len(),
{
    if calls.len() == 0 {
        Seq::empty()
    } else if calls.last().0 == key {
        selected(calls.drop_last(), key).push(calls.last().1)
    } else {
        selected(calls.drop_last(), key)
    }
}

/// The calls that register `handlers`, first to last, all under `key`.
pub open spec fn calls_for(key: TypeId, handlers: Seq<LogFn>) -> Seq<(TypeId, LogFn)> {
    Seq::new(handlers.len(), |i: int| (key, handlers[i]))
}

/// Registration order is the only thing that decides what a type's handlers
/// are and in which order they stand: after any series of registrations, the
/// handlers of a type are those it had before, followed by the ones the
/// series registered for it, in the order of the calls. Calls for other types
/// leave no trace in it.
pub proof fn law_registration_order(
    typed: Map<TypeId, Seq<LogFn>>,
    calls: Seq<(TypeId, LogFn)>,
    key: TypeId,
)
    ensures
        handlers_for(registered(typed, calls), key) == handlers_for(typed, key) + selected(
            calls,
            key,
        ),
    decreases calls.len(),
{
    if calls.len() == 0 {
        assert(handlers_for(typed, key) + Seq::<LogFn>::empty() =~= handlers_for(typed, key));
    } else {
        law_registration_order(typed, calls.drop_last(), key);
        if calls.last().0 == key {
            assert(handlers_for(registered(typed, calls), key) =~= handlers_for(typed, key)
                + selected(calls, key));
        }
    }
}

/// Registration is additive: `n` handlers registered for one type stand, in
/// the order of registration, behind those the type had, and none of the
/// earlier ones is replaced. On a registry that had none for the type, a
/// dispatch of that type runs exactly these `n`, oldest first, before the
/// catch-all handlers.
pub proof fn law_additive_registration(
    typed: Map<TypeId, Seq<LogFn>>,
    catch_all: Option<Seq<LogFn>>,
    key: TypeId,
    handlers: Seq<LogFn>,
)
    ensures
        handlers_for(registered(typed, calls_for(key, handlers)), key) == handlers_for(typed, key)
            + handlers,
        !typed.dom().contains(key) ==> dispatch_plan(
            Some(registered(typed, calls_for(key, handlers))),
            catch_all,
            key,
        ) == handlers + catch_all_part(catch_all),
{
    lemma_selected_all(key, handlers);
    law_registration_order(typed, calls_for(key, handlers), key);
    if !typed.dom().contains(key) {
        assert(Seq::<LogFn>::empty() + handlers =~= handlers);
    }
}

/// Every call in `calls_for(key, handlers)` is selected for `key`.
proof fn lemma_selected_all(key: TypeId, handlers: Seq<LogFn>)
    ensures
        selected(calls_for(key, handlers), key) == handlers,
    decreases handlers.len(),
{
    let calls = calls_for(key, handlers);
    if handlers.len() > 0 {
        lemma_selected_all(key, handlers.drop_last());
        assert(calls.drop_last() =~= calls_for(key, handlers.drop_last()));
        assert(selected(calls, key) =~= handlers);
    } else {
        assert(selected(calls, key) =~= handlers);
    }
}

/// Types are isolated from each other: registering a handler for one type
/// changes nothing in what a dispatch of a value of another type runs.
pub proof fn law_type_isolation(
    typed: Map<TypeId, Seq<LogFn>>,
    catch_all: Option<Seq<LogFn>>,
    registered_for: TypeId,
    dispatched: TypeId,
    handler: LogFn,
)
    requires
        registered_for != dispatched,
    ensures
        dispatch_plan(Some(with_handler(typed, registered_for, handler)), catch_all, dispatched)
            == dispatch_plan(Some(typed), catch_all, dispatched),
{
}

/// Whatever the type of the dispatched value, every catch-all handler is run,
/// in registration order, after all the handlers registered for the type.
pub proof fn law_catch_all_breadth(
    typed: Option<Map<TypeId, Seq<LogFn>>>,
    catch_all: Seq<LogFn>,
    key: TypeId,
)
    ensures
        dispatch_plan(typed, Some(catch_all), key).len() == typed_part(typed, key).len()
            + catch_all.len(),
        dispatch_plan(typed, Some(catch_all), key).subrange(
            0,
            typed_part(typed, key).len() as int,
        ) == typed_part(typed, key),
        dispatch_plan(typed, Some(catch_all), key).subrange(
            typed_part(typed, key).len() as int,
            dispatch_plan(typed, Some(catch_all), key).len() as int,
        ) == catch_all,
{
    let plan = dispatch_plan(typed, Some(catch_all), key);
    let n = typed_part(typed, key).len() as int;
    assert(plan.subrange(0, n) =~= typed_part(typed, key));
    assert(plan.subrange(n, plan.len() as int) =~= catch_all);
}

/// Registrations for different types do not disturb each other: made in
/// either order they leave the same registry.
pub proof fn law_registrations_commute(
    typed: Map<TypeId, Seq<LogFn>>,
    one: TypeId,
    other: TypeId,
    for_one: LogFn,
    for_other: LogFn,
)
    requires
        one != other,
    ensures
        with_handler(with_handler(typed, one, for_one), other, for_other) == with_handler(
            with_handler(typed, other, for_other),
            one,
            for_one,
        ),
{
    assert(with_handler(with_handler(typed, one, for_one), other, for_other) =~= with_handler(
        with_handler(typed, other, for_other),
        one,
        for_one,
    ));
}

/// After a closure has been registered for a type and another for every
/// type, a dispatch of a value of that type runs the first and then the
/// second, whatever else is registered for other types; once the dispatch is
/// over, the first has run on the value itself and the second on a handle of
/// it.
pub proof fn law_typed_then_catch_all<
    T: Loggable + 'static,
    F: Fn(&T) + Send + Sync + 'static,
    G: Fn(&Erased<'_>) + Send + Sync + 'static,
>(typed: Map<TypeId, Seq<LogFn>>, f: F, g: G, value: &T)
    requires
        !typed.dom().contains(type_key::<T>()),
    ensures
        dispatch_plan(
            Some(with_handler(typed, type_key::<T>(), typed_handler::<T, F>(f))),
            Some(seq![catch_all_handler(g)]),
            type_key::<T>(),
        ) == seq![typed_handler::<T, F>(f), catch_all_handler(g)],
        typed_handler::<T, F>(f).handled(erased(value)) ==> call_ensures(f, (value,), ()),
        catch_all_handler(g).handled(erased(value)) ==> catch_all_ran(g, erased(value)),
{
    let plan = dispatch_plan(
        Some(with_handler(typed, type_key::<T>(), typed_handler::<T, F>(f))),
        Some(seq![catch_all_handler(g)]),
        type_key::<T>(),
    );
    assert(plan =~= seq![typed_handler::<T, F>(f), catch_all_handler(g)]);
    lemma_typed_handler::<T, F>(f, erased(value));
    lemma_catch_all_handler(g, erased(value));
}

/// A typed handler declines what is not a value of its type: it can run on
/// such a value without its closure running at all.
pub proof fn law_typed_handler_declines<T: Loggable + 'static, F: Fn(&T) + Send + Sync + 'static>(
    f: F,
    value: ErasedView<'_>,
)
    requires
        forall|t: &T| erased(t) != value,
    ensures
        typed_handler::<T, F>(f).handled(value),
{
    lemma_typed_handler::<T, F>(f, value);
}

/// A registry that cannot be read contributes no handler, and the other
/// registry is served as if nothing had happened.
pub proof fn law_graceful_degradation(
    typed: Map<TypeId, Seq<LogFn>>,
    catch_all: Seq<LogFn>,
    key: TypeId,
)
    ensures
        dispatch_plan(None, Some(catch_all), key) == catch_all,
        dispatch_plan(Some(typed), None, key) == handlers_for(typed, key),
        dispatch_plan(None, None, key) == Seq::<LogFn>::empty(),
{
    assert(dispatch_plan(None, Some(catch_all), key) =~= catch_all);
    assert(dispatch_plan(Some(typed), None, key) =~= handlers_for(typed, key));
    assert(dispatch_plan(None, None, key) =~= Seq::<LogFn>::empty());
}

} // verus!
