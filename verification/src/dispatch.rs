use crate::handler::accepts_every;
use crate::handler::accepts_every_erased;
use crate::handler::catch_all_handler;
use crate::handler::typed_handler;
use crate::handler::LogFn;
use crate::loggable::erased;
use crate::loggable::type_key;
use crate::loggable::type_key_of;
use crate::loggable::Erased;
use crate::loggable::ErasedView;
use crate::loggable::Loggable;
use crate::registry::handlers_for;
use crate::registry::with_handler;
use crate::registry::CatchAllRegistry;
use crate::registry::TypedRegistry;
use std::any::TypeId;
use vstd::prelude::*;

verus! {

/// What a read of the typed registry yields for `key`; a registry that could
/// not be reached (`None`) counts as one without handlers.
pub open spec fn typed_part(typed: Option<Map<TypeId, Seq<LogFn>>>, key: TypeId) -> Seq<LogFn> {
    match typed {
        Some(registry) => handlers_for(registry, key),
        None => Seq::empty(),
    }
}

/// What a read of the catch-all registry yields; a registry that could not be
/// reached (`None`) counts as one without handlers.
pub open spec fn catch_all_part(catch_all: Option<Seq<LogFn>>) -> Seq<LogFn> {
    match catch_all {
        Some(handlers) => handlers,
        None => Seq::empty(),
    }
}

/// The handlers that a dispatch of a value with type identifier `key` runs,
/// in the order in which it runs them: first those registered for the type,
/// then the catch-all ones, each group oldest first.
pub open spec fn dispatch_plan(
    typed: Option<Map<TypeId, Seq<LogFn>>>,
    catch_all: Option<Seq<LogFn>>,
    key: TypeId,
) -> Seq<LogFn> {
    typed_part(typed, key) + catch_all_part(catch_all)
}

/// The view of a typed registry that may be out of reach.
pub open spec fn typed_view(typed: Option<&TypedRegistry>) -> Option<Map<TypeId, Seq<LogFn>>> {
    match typed {
        Some(registry) => Some(registry@),
        None => None,
    }
}

/// The view of a catch-all registry that may be out of reach.
pub open spec fn catch_all_view(catch_all: Option<&CatchAllRegistry>) -> Option<Seq<LogFn>> {
    match catch_all {
        Some(registry) => Some(registry@),
        None => None,
    }
}

/// Reads the handlers registered under `key`, oldest first. A registry that
/// cannot be read and a key without handlers both give none.
pub fn lookup_typed<'a>(typed: Option<&'a TypedRegistry>, key: &TypeId) -> (handlers: &'a [LogFn])
    ensures
        handlers@ == typed_part(typed_view(typed), *key),
{
    match typed {
        Some(registry) => registry.lookup(key),
        None => &[],
    }
}

/// Reads the catch-all handlers, oldest first. A registry that cannot be read
/// gives none.
pub fn lookup_all<'a>(catch_all: Option<&'a CatchAllRegistry>) -> (handlers: &'a [LogFn])
    ensures
        handlers@ == catch_all_part(catch_all_view(catch_all)),
{
    match catch_all {
        Some(registry) => registry.handlers(),
        None => &[],
    }
}

/// Every one of `handlers` has run on `value`.
pub open spec fn all_handled(handlers: Seq<LogFn>, value: ErasedView<'_>) -> bool {
    forall|i: int| 0 <= i < handlers.len() ==> (#[trigger] handlers[i]).handled(value)
}

/// Runs each of `handlers` on `value`, first to last.
pub fn run_handlers(handlers: &[LogFn], value: &Erased<'_>)
    ensures
        all_handled(handlers@, value@),
{
    let mut i: usize = 0;
    while i < handlers.len()
        invariant
            0 <= i <= handlers@.len(),
            forall|j: int| 0 <= j < i ==> (#[trigger] handlers@[j]).handled(value@),
        decreases handlers@.len() - i,
    {
        handlers[i].call(value);
        i = i + 1;
    }
}

/// Hands `loggable` to the handlers registered for its type, then to the
/// catch-all handlers: to every handler of [`dispatch_plan`], each of which
/// gets the erased form of `loggable` and nothing else.
///
/// `None` for a registry stands for one that cannot be read; its handlers are
/// skipped and the other registry is served as usual. A value for whose type
/// nothing is registered still reaches the catch-all handlers.
pub fn log_any<T: Loggable + 'static>(
    typed: Option<&TypedRegistry>,
    catch_all: Option<&CatchAllRegistry>,
    loggable: &T,
)
    ensures
        all_handled(
            dispatch_plan(typed_view(typed), catch_all_view(catch_all), type_key::<T>()),
            erased(loggable),
        ),
{
    let value = Erased::new(loggable);
    let key = type_key_of::<T>();
    run_handlers(lookup_typed(typed, &key), &value);
    run_handlers(lookup_all(catch_all), &value);
}

/// Registers `log_fn` for values of type `T`, behind the handlers already
/// registered for that type. Nothing registered before is replaced.
///
/// `None` stands for a registry that cannot be written; the call then does
/// nothing. In the contract, `registry@` is the registry as the call finds it.
pub fn push_log_impl<T: Loggable + 'static>(
    typed: Option<&mut TypedRegistry>,
    log_fn: impl Fn(&T) + Sync + Send + 'static,
)
    requires
        accepts_every(log_fn),
    ensures
        match typed {
            Some(registry) => final(registry)@ == with_handler(
                registry@,
                type_key::<T>(),
                typed_handler(log_fn),
            ),
            None => true,
        },
{
    match typed {
        Some(registry) => {
            registry.register(type_key_of::<T>(), LogFn::typed(log_fn));
        },
        None => {},
    }
}

/// Registers `log_fn` for values of every type, behind the catch-all handlers
/// already registered. A handler that cares for some types only has to tell
/// them apart itself, with [`Erased::downcast_ref`].
///
/// `None` stands for a registry that cannot be written; the call then does
/// nothing. In the contract, `registry@` is the registry as the call finds it.
pub fn push_log_any(
    catch_all: Option<&mut CatchAllRegistry>,
    log_fn: impl Fn(&Erased<'_>) + Sync + Send + 'static,
)
    requires
        accepts_every_erased(log_fn),
    ensures
        match catch_all {
            Some(registry) => final(registry)@ == registry@.push(catch_all_handler(log_fn)),
            None => true,
        },
{
    match catch_all {
        Some(registry) => {
            registry.register(LogFn::catch_all(log_fn));
        },
        None => {},
    }
}

} // verus!
