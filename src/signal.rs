use vstd::prelude::*;

verus! {

/// Identifies a dependent: a view or derived computation that re-runs when a
/// signal it read changes.
pub type ScopeId = u64;

/// `deps` after `scope` has read the signal: a reader is added once, at the end.
pub open spec fn with_dependent(deps: Seq<ScopeId>, scope: ScopeId) -> Seq<ScopeId> {
    if deps.contains(scope) {
        deps
    } else {
        deps.push(scope)
    }
}

/// `deps` after a read from `scope`, or after an untracked read (`None`).
pub open spec fn tracked_by(deps: Seq<ScopeId>, scope: Option<ScopeId>) -> Seq<ScopeId> {
    match scope {
        Some(s) => with_dependent(deps, s),
        None => deps,
    }
}

/// `pending` with each scope of `stale` added, in order, unless already there.
pub open spec fn merged(pending: Seq<ScopeId>, stale: Seq<ScopeId>) -> Seq<ScopeId>
    decreases stale.len(),
{
    if stale.len() == 0 {
        pending
    } else {
        with_dependent(merged(pending, stale.drop_last()), stale.last())
    }
}

proof fn lemma_with_dependent(deps: Seq<ScopeId>, scope: ScopeId)
    requires
        deps.no_duplicates(),
    ensures
        with_dependent(deps, scope).no_duplicates(),
        with_dependent(deps, scope).to_set() == deps.to_set().insert(scope),
{
    if !deps.contains(scope) {
        assert(deps.push(scope).to_set() =~= deps.to_set().insert(scope)) by {
            assert forall|x: ScopeId| #[trigger] deps.push(scope).contains(x) implies deps.contains(x) || x
                == scope by {
                let i = choose|i: int| 0 <= i < deps.push(scope).len() && deps.push(scope)[i] == x;
                if i < deps.len() {
                    assert(deps[i] == x);
                }
            }
            assert forall|x: ScopeId| #[trigger] deps.contains(x) implies deps.push(scope).contains(x) by {
                let i = choose|i: int| 0 <= i < deps.len() && deps[i] == x;
                assert(deps.push(scope)[i] == x);
            }
            assert(deps.push(scope)[deps.len() as int] == scope);
        }
    } else {
        assert(deps.to_set().insert(scope) =~= deps.to_set());
    }
}

proof fn lemma_merged_contains(pending: Seq<ScopeId>, stale: Seq<ScopeId>)
    ensures
        forall|x: ScopeId| pending.contains(x) ==> #[trigger] merged(pending, stale).contains(x),
        forall|x: ScopeId| stale.contains(x) ==> #[trigger] merged(pending, stale).contains(x),
    decreases stale.len(),
{
    if stale.len() > 0 {
        let front = stale.drop_last();
        lemma_merged_contains(pending, front);
        let q = merged(pending, front);
        assert forall|x: ScopeId| q.contains(x) implies #[trigger] with_dependent(q, stale.last()).contains(x) by {
            if !q.contains(stale.last()) {
                let i = choose|i: int| 0 <= i < q.len() && q[i] == x;
                assert(q.push(stale.last())[i] == x);
            }
        }
        if !q.contains(stale.last()) {
            assert(q.push(stale.last())[q.len() as int] == stale.last());
        }
        assert forall|x: ScopeId| stale.contains(x) implies #[trigger] merged(pending, stale).contains(x) by {
            let i = choose|i: int| 0 <= i < stale.len() && stale[i] == x;
            if i < front.len() {
                assert(front[i] == x);
            }
        }
    }
}

proof fn lemma_merged_absorbs(pending: Seq<ScopeId>, stale: Seq<ScopeId>)
    requires
        forall|x: ScopeId| stale.contains(x) ==> pending.contains(x),
    ensures
        merged(pending, stale) == pending,
    decreases stale.len(),
{
    if stale.len() > 0 {
        let front = stale.drop_last();
        assert forall|x: ScopeId| front.contains(x) implies pending.contains(x) by {
            let i = choose|i: int| 0 <= i < front.len() && front[i] == x;
            assert(stale[i] == x);
        }
        lemma_merged_absorbs(pending, front);
        assert(stale[stale.len() - 1] == stale.last());
    }
}

/// Scheduling the same stale dependents twice in one batch leaves the batch
/// as scheduling them once: no dependent re-runs twice for one event.
pub proof fn lemma_schedule_twice(pending: Seq<ScopeId>, stale: Seq<ScopeId>)
    ensures
        merged(merged(pending, stale), stale) == merged(pending, stale),
{
    lemma_merged_contains(pending, stale);
    lemma_merged_absorbs(merged(pending, stale), stale);
}

/// A reactive value together with the scopes that read it and must re-run
/// when it changes.
pub struct Signal<T> {
    value: T,
    dependents: Vec<ScopeId>,
}

impl<T> Signal<T> {
    pub closed spec fn value(&self) -> T {
        self.value
    }

    /// The registered dependents, in order of first read.
    pub closed spec fn dependents(&self) -> Seq<ScopeId> {
        self.dependents@
    }

    /// No dependent is registered twice.
    pub open spec fn wf(&self) -> bool {
        self.dependents().no_duplicates()
    }

    /// A signal holding `initial`, with no dependents yet.
    pub fn new(initial: T) -> (s: Self)
        ensures
            s.wf(),
            s.value() == initial,
            s.dependents() == Seq::<ScopeId>::empty(),
    {
        Signal { value: initial, dependents: Vec::new() }
    }

    /// The current value, without registering anything.
    pub fn get_untracked(&self) -> (r: &T)
        ensures
            *r == self.value(),
    {
        &self.value
    }

    /// Registers `scope` as a dependent unless it already is one.
    pub fn track(&mut self, scope: ScopeId)
        requires
            old(self).wf(),
        ensures
            final(self).wf(),
            final(self).value() == old(self).value(),
            final(self).dependents() == with_dependent(old(self).dependents(), scope),
    {
        proof {
            lemma_with_dependent(self.dependents@, scope);
        }
        let n = self.dependents.len();
        let mut i: usize = 0;
        while i < n
            invariant
                n == self.dependents@.len(),
                i <= n,
                *self == *old(self),
                self.wf(),
                forall|j: int| 0 <= j < i ==> self.dependents@[j] != scope,
            decreases n - i,
        {
            if self.dependents[i] == scope {
                assert(self.dependents@.contains(scope));
                return;
            }
            i = i + 1;
        }
        self.dependents.push(scope);
    }

    /// The current value; a read from inside `scope` registers that scope as
    /// a dependent.
    pub fn get(&mut self, scope: Option<ScopeId>) -> (r: T) where T: Copy
        requires
            old(self).wf(),
        ensures
            final(self).wf(),
            r == old(self).value(),
            final(self).value() == old(self).value(),
            final(self).dependents() == tracked_by(old(self).dependents(), scope),
    {
        match scope {
            Some(s) => self.track(s),
            None => {},
        }
        self.value
    }

    /// Replaces the value and returns the dependents to re-run, each once.
    pub fn set(&mut self, value: T) -> (stale: Vec<ScopeId>)
        requires
            old(self).wf(),
        ensures
            final(self).wf(),
            final(self).value() == value,
            final(self).dependents() == old(self).dependents(),
            stale@ == old(self).dependents(),
    {
        self.value = value;
        let stale = self.dependents.clone();
        assert(stale@ =~= self.dependents@);
        stale
    }

    /// Replaces the value with `f` applied to it and returns the dependents
    /// to re-run, each once.
    pub fn update<F: FnOnce(&T) -> T>(&mut self, f: F) -> (stale: Vec<ScopeId>)
        requires
            old(self).wf(),
            f.requires((&old(self).value(),)),
        ensures
            final(self).wf(),
            f.ensures((&old(self).value(),), final(self).value()),
            final(self).dependents() == old(self).dependents(),
            stale@ == old(self).dependents(),
    {
        let value = f(&self.value);
        self.set(value)
    }
}

/// The dependents marked stale during one event, each kept once.
pub struct Batch {
    pending: Vec<ScopeId>,
}

impl Batch {
    pub closed spec fn pending(&self) -> Seq<ScopeId> {
        self.pending@
    }

    pub fn new() -> (b: Self)
        ensures
            b.pending() == Seq::<ScopeId>::empty(),
    {
        Batch { pending: Vec::new() }
    }

    /// Marks each scope of `stale` for re-evaluation, at most once per batch.
    pub fn schedule(&mut self, stale: &Vec<ScopeId>)
        requires
            old(self).pending().no_duplicates(),
        ensures
            final(self).pending() == merged(old(self).pending(), stale@),
            final(self).pending().no_duplicates(),
            final(self).pending().to_set() == old(self).pending().to_set().union(stale@.to_set()),
    {
        let n = stale.len();
        let mut i: usize = 0;
        while i < n
            invariant
                n == stale@.len(),
                i <= n,
                self.pending@ == merged(old(self).pending(), stale@.subrange(0, i as int)),
                self.pending@.no_duplicates(),
                self.pending@.to_set() == old(self).pending().to_set().union(
                    stale@.subrange(0, i as int).to_set(),
                ),
            decreases n - i,
        {
            let scope = stale[i];
            let ghost before = self.pending@;
            proof {
                lemma_with_dependent(before, scope);
                let next = stale@.subrange(0, i + 1);
                assert(next.drop_last() =~= stale@.subrange(0, i as int));
                assert(next.to_set() =~= stale@.subrange(0, i as int).to_set().insert(scope)) by {
                    assert(next =~= stale@.subrange(0, i as int).push(scope));
                    lemma_push_to_set(stale@.subrange(0, i as int), scope);
                }
            }
            let n_pending = self.pending.len();
            let mut j: usize = 0;
            let mut found = false;
            while j < n_pending
                invariant
                    n_pending == self.pending@.len(),
                    self.pending@ == before,
                    j <= n_pending,
                    !found ==> forall|k: int| 0 <= k < j ==> self.pending@[k] != scope,
                    found ==> self.pending@.contains(scope),
                decreases n_pending - j,
            {
                if self.pending[j] == scope {
                    assert(self.pending@[j as int] == scope);
                    found = true;
                }
                j = j + 1;
            }
            if !found {
                self.pending.push(scope);
            }
            assert(self.pending@ == with_dependent(before, scope));
            i = i + 1;
        }
        assert(stale@.subrange(0, n as int) =~= stale@);
    }

    /// Hands out the scheduled dependents, in order, and empties the batch.
    pub fn take(&mut self) -> (r: Vec<ScopeId>)
        ensures
            r@ == old(self).pending(),
            final(self).pending() == Seq::<ScopeId>::empty(),
    {
        let mut out: Vec<ScopeId> = Vec::new();
        std::mem::swap(&mut out, &mut self.pending);
        out
    }
}

proof fn lemma_push_to_set(s: Seq<ScopeId>, x: ScopeId)
    ensures
        s.push(x).to_set() == s.to_set().insert(x),
{
    assert forall|y: ScopeId| #[trigger] s.push(x).contains(y) implies s.contains(y) || y == x by {
        let i = choose|i: int| 0 <= i < s.push(x).len() && s.push(x)[i] == y;
        if i < s.len() {
            assert(s[i] == y);
        }
    }
    assert forall|y: ScopeId| #[trigger] s.contains(y) implies s.push(x).contains(y) by {
        let i = choose|i: int| 0 <= i < s.len() && s[i] == y;
        assert(s.push(x)[i] == y);
    }
    assert(s.push(x)[s.len() as int] == x);
    assert(s.push(x).to_set() =~= s.to_set().insert(x));
}

} // verus!
