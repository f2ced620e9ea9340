//! The scoped registry: a mapping from scope name to pool, filled by
//! registration and read by acquisition.
use vstd::prelude::*;

use crate::error::ScopeError;

verus! {

/// The mapping after a registration of `scope` whose pool build ended in
/// `built`: a built pool is stored under the scope, replacing any earlier
/// one; a failure leaves the mapping as it was.
pub open spec fn after_register<P>(
    m: Map<Seq<char>, P>,
    scope: Seq<char>,
    built: Result<P, ScopeError>,
) -> Map<Seq<char>, P> {
    match built {
        Ok(pool) => m.insert(scope, pool),
        Err(_) => m,
    }
}

/// The mapping of a registry that was created empty and then saw the
/// registrations of `history`, in order.
pub open spec fn replay<P>(history: Seq<(Seq<char>, Result<P, ScopeError>)>) -> Map<
    Seq<char>,
    P,
>
    decreases history.len(),
{
    if history.len() == 0 {
        Map::empty()
    } else {
        let last = history.last();
        after_register(replay(history.drop_last()), last.0, last.1)
    }
}

/// A scope that no registration in the history named is absent from the
/// mapping, so a lookup of it fails with `ScopeNotFound`.
pub proof fn lemma_unregistered_scope_absent<P>(
    history: Seq<(Seq<char>, Result<P, ScopeError>)>,
    scope: Seq<char>,
)
    requires
        forall|i: int| 0 <= i < history.len() ==> (#[trigger] history[i]).0 != scope,
    ensures
        !replay(history).contains_key(scope),
    decreases history.len(),
{
    if history.len() > 0 {
        let rest = history.drop_last();
        assert forall|i: int| 0 <= i < rest.len() implies (#[trigger] rest[i]).0 != scope by {
            assert(rest[i] == history[i]);
        }
        lemma_unregistered_scope_absent(rest, scope);
        assert(history.last() == history[history.len() - 1]);
    }
}

/// Right after a successful registration the scope maps to the pool that
/// was just built.
pub proof fn lemma_registered_scope_found<P>(m: Map<Seq<char>, P>, scope: Seq<char>, pool: P)
    ensures
        after_register(m, scope, Ok(pool)).contains_key(scope),
        after_register(m, scope, Ok(pool))[scope] == pool,
{
}

/// Registering a scope again replaces its pool: the mapping is as if only
/// the second registration had happened.
pub proof fn lemma_reregister_replaces<P>(
    m: Map<Seq<char>, P>,
    scope: Seq<char>,
    first: P,
    second: P,
)
    ensures
        after_register(after_register(m, scope, Ok(first)), scope, Ok(second)) == after_register(
            m,
            scope,
            Ok(second),
        ),
        after_register(after_register(m, scope, Ok(first)), scope, Ok(second))[scope] == second,
{
    assert(m.insert(scope, first).insert(scope, second) =~= m.insert(scope, second));
}

/// A failed registration leaves the whole mapping unchanged: an earlier
/// pool of the scope stays, and an absent scope stays absent.
pub proof fn lemma_failed_register_keeps_mapping<P>(
    m: Map<Seq<char>, P>,
    scope: Seq<char>,
    e: ScopeError,
)
    ensures
        after_register(m, scope, Err(e)) == m,
        !m.contains_key(scope) ==> !after_register(m, scope, Err(e)).contains_key(scope),
{
}

/// Registering one scope, successfully or not, does not touch the entry of
/// any other scope.
pub proof fn lemma_scopes_isolated<P>(
    m: Map<Seq<char>, P>,
    scope: Seq<char>,
    built: Result<P, ScopeError>,
    other: Seq<char>,
)
    requires
        other != scope,
    ensures
        after_register(m, scope, built).contains_key(other) == m.contains_key(other),
        m.contains_key(other) ==> after_register(m, scope, built)[other] == m[other],
{
}

/// Named pools, at most one per scope name.
///
/// The entries are kept as a list with distinct names; `model` is the
/// mapping that the list stands for.
#[derive(Clone)]
pub struct ScopedPool<P> {
    pool: Vec<(String, P)>,
    model: Ghost<Map<Seq<char>, P>>,
}

impl<P> View for ScopedPool<P> {
    type V = Map<Seq<char>, P>;

    closed spec fn view(&self) -> Map<Seq<char>, P> {
        self.model@
    }
}

impl<P> ScopedPool<P> {
    /// The entries have distinct names and hold exactly the mapping.
    pub closed spec fn wf(&self) -> bool {
        &&& forall|i: int, j: int|
            0 <= i < j < self.pool@.len() ==> self.pool@[i].0@ != self.pool@[j].0@
        &&& forall|i: int|
            0 <= i < self.pool@.len() ==> #[trigger] self.model@.contains_key(self.pool@[i].0@)
                && self.model@[self.pool@[i].0@] == self.pool@[i].1
        &&& forall|k: Seq<char>|
            #[trigger] self.model@.contains_key(k) ==> exists|i: int|
                0 <= i < self.pool@.len() && self.pool@[i].0@ == k
    }

    /// An empty registry.
    pub fn new() -> (r: Self)
        ensures
            r.wf(),
            r@ == Map::<Seq<char>, P>::empty(),
    {
        ScopedPool { pool: Vec::new(), model: Ghost(Map::empty()) }
    }

    /// The position of the entry named `scope`, if there is one.
    fn position(&self, scope: &str) -> (r: Option<usize>)
        requires
            self.wf(),
        ensures
            match r {
                Some(i) => i < self.pool@.len() && self.pool@[i as int].0@ == scope@,
                None => !self@.contains_key(scope@),
            },
    {
        let key = scope.to_owned();
        let mut i: usize = 0;
        while i < self.pool.len()
            invariant
                self.wf(),
                key@ == scope@,
                i <= self.pool@.len(),
                forall|j: int| 0 <= j < i ==> self.pool@[j].0@ != scope@,
            decreases self.pool@.len() - i,
        {
            if self.pool[i].0 == key {
                return Some(i);
            }
            i = i + 1;
        }
        None
    }

    /// Whether a pool is registered under `scope`.
    pub fn contains(&self, scope: &str) -> (r: bool)
        requires
            self.wf(),
        ensures
            r == self@.contains_key(scope@),
    {
        self.position(scope).is_some()
    }

    /// Stores `pool` under `scope`, replacing the pool registered there
    /// before, if any.
    pub fn insert(&mut self, scope: &str, pool: P)
        requires
            old(self).wf(),
        ensures
            final(self).wf(),
            final(self)@ == old(self)@.insert(scope@, pool),
    {
        let ghost m = self.model@;
        match self.position(scope) {
            Some(i) => {
                let name = scope.to_owned();
                self.pool.set(i, (name, pool));
                self.model = Ghost(m.insert(scope@, pool));
                assert forall|j: int| 0 <= j < self.pool@.len() && j != i implies self.pool@[j]
                    == old(self).pool@[j] && self.pool@[j].0@ != scope@ by {
                    if j < i {
                        assert(old(self).pool@[j].0@ != old(self).pool@[i as int].0@);
                    } else {
                        assert(old(self).pool@[i as int].0@ != old(self).pool@[j].0@);
                    }
                }
                assert forall|k: Seq<char>| #[trigger] self.model@.contains_key(k) implies exists|
                    j: int,
                | 0 <= j < self.pool@.len() && self.pool@[j].0@ == k by {
                    if k != scope@ {
                        let j = choose|j: int| 0 <= j < old(self).pool@.len() && old(self).pool@[j].0@ == k;
                        assert(self.pool@[j] == old(self).pool@[j]);
                    } else {
                        assert(self.pool@[i as int].0@ == k);
                    }
                }
            },
            None => {
                let name = scope.to_owned();
                self.pool.push((name, pool));
                self.model = Ghost(m.insert(scope@, pool));
                assert forall|j: int| 0 <= j < old(self).pool@.len() implies self.pool@[j]
                    == old(self).pool@[j] && self.pool@[j].0@ != scope@ by {
                    assert(m.contains_key(old(self).pool@[j].0@));
                }
                assert forall|k: Seq<char>| #[trigger] self.model@.contains_key(k) implies exists|
                    j: int,
                | 0 <= j < self.pool@.len() && self.pool@[j].0@ == k by {
                    if k != scope@ {
                        let j = choose|j: int| 0 <= j < old(self).pool@.len() && old(self).pool@[j].0@ == k;
                        assert(self.pool@[j] == old(self).pool@[j]);
                    } else {
                        assert(self.pool@[old(self).pool@.len() as int].0@ == k);
                    }
                }
            },
        }
    }

    /// Ends a registration of `scope` whose pool build produced `built`: a
    /// built pool is stored under the scope, replacing any earlier one; a
    /// failure is handed back unchanged and the registry is left as it was.
    pub fn register_built(&mut self, scope: &str, built: Result<P, ScopeError>) -> (r: Result<
        (),
        ScopeError,
    >)
        requires
            old(self).wf(),
        ensures
            final(self).wf(),
            final(self)@ == after_register(old(self)@, scope@, built),
            match built {
                Ok(_) => r is Ok,
                Err(e) => r == Err::<(), ScopeError>(e),
            },
    {
        match built {
            Ok(pool) => {
                self.insert(scope, pool);
                Ok(())
            },
            Err(e) => Err(e),
        }
    }

    /// The pool registered under `scope`; `ScopeNotFound` naming the scope
    /// when there is none. Looks at the registry only.
    pub fn lookup(&self, scope: &str) -> (r: Result<&P, ScopeError>)
        requires
            self.wf(),
        ensures
            r is Ok <==> self@.contains_key(scope@),
            match r {
                Ok(pool) => *pool == self@[scope@],
                Err(e) => e is ScopeNotFound && e->ScopeNotFound_0@ == scope@,
            },
    {
        match self.position(scope) {
            Some(i) => {
                assert(self.model@.contains_key(self.pool@[i as int].0@));
                Ok(&self.pool[i].1)
            },
            None => Err(ScopeError::ScopeNotFound(scope.to_owned())),
        }
    }
}

} // verus!
