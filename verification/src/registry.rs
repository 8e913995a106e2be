use crate::handler::LogFn;
use crate::loggable::same_key;
use std::any::TypeId;
use vstd::prelude::*;

verus! {

/// The handlers registered under `key`, in registration order; none if the
/// key has no entry.
pub open spec fn handlers_for(typed: Map<TypeId, Seq<LogFn>>, key: TypeId) -> Seq<LogFn> {
    if typed.dom().contains(key) {
        typed[key]
    } else {
        Seq::empty()
    }
}

/// The typed registry after `handler` has been registered under `key`: the
/// handler goes behind those already there, and no other key is touched.
pub open spec fn with_handler(typed: Map<TypeId, Seq<LogFn>>, key: TypeId, handler: LogFn) -> Map<
    TypeId,
    Seq<LogFn>,
> {
    typed.insert(key, handlers_for(typed, key).push(handler))
}

/// The handlers of one type.
struct TypedEntry {
    key: TypeId,
    handlers: Vec<LogFn>,
}

/// Handlers registered for specific types, keyed by type identifier.
///
/// Its view is a map from identifier to the sequence of handlers registered
/// under it, oldest first. An identifier is in the map once a handler has been
/// registered under it. The registry only grows: there is no way to take a
/// handler out again.
///
/// The entries are kept in a list, one per type and no type twice, which is
/// searched front to back; a lookup takes time in the number of types that
/// have handlers.
pub struct TypedRegistry {
    entries: Vec<TypedEntry>,
}

/// No identifier has two entries.
spec fn keys_distinct(entries: Seq<TypedEntry>) -> bool {
    forall|i: int, j: int| 0 <= i < j < entries.len() ==> entries[i].key != entries[j].key
}

/// The entry at `i` is the one of `key`.
spec fn has_key_at(entries: Seq<TypedEntry>, key: TypeId, i: int) -> bool {
    0 <= i < entries.len() && entries[i].key == key
}

spec fn index_of(entries: Seq<TypedEntry>, key: TypeId) -> int {
    choose|i: int| has_key_at(entries, key, i)
}

/// The map that a list of entries stands for.
spec fn entries_view(entries: Seq<TypedEntry>) -> Map<TypeId, Seq<LogFn>> {
    Map::new(
        |key: TypeId| exists|i: int| has_key_at(entries, key, i),
        |key: TypeId| entries[index_of(entries, key)].handlers@,
    )
}

/// With distinct keys, the entry found for a key is the only one there is.
proof fn lemma_entry_found(entries: Seq<TypedEntry>, key: TypeId, i: int)
    requires
        keys_distinct(entries),
        has_key_at(entries, key, i),
    ensures
        index_of(entries, key) == i,
        entries_view(entries).dom().contains(key),
        entries_view(entries)[key] == entries[i].handlers@,
{
    let j = index_of(entries, key);
    assert(has_key_at(entries, key, j));
    if j < i {
        assert(entries[j].key != entries[i].key);
    } else if i < j {
        assert(entries[i].key != entries[j].key);
    }
}

/// Pushing a handler onto the entry at `i` registers it under that entry's key.
proof fn lemma_entry_extended(
    before: Seq<TypedEntry>,
    after: Seq<TypedEntry>,
    i: int,
    handler: LogFn,
)
    requires
        keys_distinct(before),
        0 <= i < before.len(),
        after.len() == before.len(),
        forall|j: int| 0 <= j < before.len() && j != i ==> after[j] == before[j],
        after[i].key == before[i].key,
        after[i].handlers@ == before[i].handlers@.push(handler),
    ensures
        keys_distinct(after),
        entries_view(after) == with_handler(entries_view(before), before[i].key, handler),
{
    let key = before[i].key;
    assert(forall|j: int| 0 <= j < before.len() ==> after[j].key == before[j].key);
    assert(keys_distinct(after));
    lemma_entry_found(before, key, i);
    let target = with_handler(entries_view(before), key, handler);
    assert forall|k: TypeId| entries_view(after).dom().contains(k) <==> target.dom().contains(
        k,
    ) by {
        if entries_view(after).dom().contains(k) {
            let j = choose|j: int| has_key_at(after, k, j);
            assert(has_key_at(before, k, j));
        }
        if target.dom().contains(k) {
            if k == key {
                assert(has_key_at(after, k, i));
            } else {
                let j = choose|j: int| has_key_at(before, k, j);
                assert(has_key_at(after, k, j));
            }
        }
    }
    assert forall|k: TypeId| entries_view(after).dom().contains(k) implies entries_view(after)[k]
        == target[k] by {
        let j = choose|j: int| has_key_at(after, k, j);
        lemma_entry_found(after, k, j);
        assert(has_key_at(before, k, j));
        lemma_entry_found(before, k, j);
    }
    assert(entries_view(after) =~= target);
}

/// A new entry with one handler registers that handler under a key that had
/// none.
proof fn lemma_entry_added(before: Seq<TypedEntry>, entry: TypedEntry, handler: LogFn)
    requires
        keys_distinct(before),
        forall|i: int| !has_key_at(before, entry.key, i),
        entry.handlers@ == seq![handler],
    ensures
        keys_distinct(before.push(entry)),
        entries_view(before.push(entry)) == with_handler(
            entries_view(before),
            entry.key,
            handler,
        ),
{
    let after = before.push(entry);
    let key = entry.key;
    assert forall|i: int, j: int| 0 <= i < j < after.len() implies after[i].key
        != after[j].key by {
        if j == before.len() {
            assert(!has_key_at(before, key, i));
        }
    }
    let target = with_handler(entries_view(before), key, handler);
    assert(!entries_view(before).dom().contains(key));
    assert(handlers_for(entries_view(before), key).push(handler) =~= seq![handler]);
    assert forall|k: TypeId| entries_view(after).dom().contains(k) <==> target.dom().contains(
        k,
    ) by {
        if entries_view(after).dom().contains(k) {
            let j = choose|j: int| has_key_at(after, k, j);
            if j < before.len() {
                assert(has_key_at(before, k, j));
            }
        }
        if target.dom().contains(k) {
            if k == key {
                assert(has_key_at(after, k, before.len() as int));
            } else {
                let j = choose|j: int| has_key_at(before, k, j);
                assert(has_key_at(after, k, j));
            }
        }
    }
    assert forall|k: TypeId| entries_view(after).dom().contains(k) implies entries_view(after)[k]
        == target[k] by {
        let j = choose|j: int| has_key_at(after, k, j);
        lemma_entry_found(after, k, j);
        if j < before.len() {
            assert(has_key_at(before, k, j));
            lemma_entry_found(before, k, j);
        }
    }
    assert(entries_view(after) =~= target);
}

impl TypedRegistry {
    #[verifier::type_invariant]
    spec fn well_formed(&self) -> bool {
        keys_distinct(self.entries@)
    }

    pub closed spec fn view(&self) -> Map<TypeId, Seq<LogFn>> {
        entries_view(self.entries@)
    }

    /// A registry without handlers.
    pub fn new() -> (registry: Self)
        ensures
            registry@ == Map::<TypeId, Seq<LogFn>>::empty(),
    {
        let registry = TypedRegistry { entries: Vec::new() };
        assert(registry@ =~= Map::<TypeId, Seq<LogFn>>::empty());
        registry
    }

    /// Where the entry of `key` is, if it has one.
    fn position(&self, key: &TypeId) -> (at: Option<usize>)
        ensures
            match at {
                Some(i) => has_key_at(self.entries@, *key, i as int),
                None => forall|i: int| !has_key_at(self.entries@, *key, i),
            },
    {
        let mut i: usize = 0;
        while i < self.entries.len()
            invariant
                0 <= i <= self.entries@.len(),
                forall|j: int| 0 <= j < i ==> !has_key_at(self.entries@, *key, j),
            decreases self.entries@.len() - i,
        {
            if same_key(&self.entries[i].key, key) {
                return Some(i);
            }
            i = i + 1;
        }
        None
    }

    /// The handlers registered under `key`, oldest first.
    pub fn lookup(&self, key: &TypeId) -> (handlers: &[LogFn])
        ensures
            handlers@ == handlers_for(self@, *key),
    {
        proof {
            use_type_invariant(self);
        }
        match self.position(key) {
            Some(i) => {
                proof {
                    lemma_entry_found(self.entries@, *key, i as int);
                }
                self.entries[i].handlers.as_slice()
            },
            None => &[],
        }
    }

    /// Registers `handler` under `key`, behind the handlers already there.
    pub fn register(&mut self, key: TypeId, handler: LogFn)
        ensures
            final(self)@ == with_handler(old(self)@, key, handler),
    {
        proof {
            use_type_invariant(&*self);
        }
        let at = self.position(&key);
        let ghost before = self.entries@;
        let mut entries: Vec<TypedEntry> = Vec::new();
        std::mem::swap(&mut self.entries, &mut entries);
        match at {
            Some(i) => {
                entries[i].handlers.push(handler);
                proof {
                    lemma_entry_extended(before, entries@, i as int, handler);
                }
            },
            None => {
                let mut handlers: Vec<LogFn> = Vec::new();
                handlers.push(handler);
                let entry = TypedEntry { key, handlers };
                proof {
                    lemma_entry_added(before, entry, handler);
                }
                entries.push(entry);
            },
        }
        std::mem::swap(&mut self.entries, &mut entries);
    }
}

/// Handlers that receive every dispatched value.
///
/// Its view is the sequence of the handlers, oldest first. The registry only
/// grows.
pub struct CatchAllRegistry {
    handlers: Vec<LogFn>,
}

impl CatchAllRegistry {
    pub closed spec fn view(&self) -> Seq<LogFn> {
        self.handlers@
    }

    /// A registry without handlers.
    pub fn new() -> (registry: Self)
        ensures
            registry@ == Seq::<LogFn>::empty(),
    {
        CatchAllRegistry { handlers: Vec::new() }
    }

    /// All handlers, oldest first.
    pub fn handlers(&self) -> (handlers: &[LogFn])
        ensures
            handlers@ == self@,
    {
        self.handlers.as_slice()
    }

    /// Registers `handler` behind the handlers already there.
    pub fn register(&mut self, handler: LogFn)
        ensures
            final(self)@ == old(self)@.push(handler),
    {
        self.handlers.push(handler);
    }
}

} // verus!
