use vstd::prelude::*;

verus! {

/// Installs `dispatcher` into a set-once slot.
///
/// Where the slot already holds a value, it is kept and the rejected
/// `dispatcher` is handed back unchanged.
pub fn set_once<D>(slot: &mut Option<D>, dispatcher: D) -> (r: Result<(), D>)
    ensures
        *old(slot) is Some ==> r == Err::<(), D>(dispatcher) && *final(slot) == *old(slot),
        *old(slot) is None ==> r == Ok::<(), D>(()) && *final(slot) == Some(dispatcher),
{
    match slot {
        Some(_) => Err(dispatcher),
        None => {
            *slot = Some(dispatcher);
            Ok(())
        },
    }
}

/// What an override replaced, to be restored when it is released.
pub struct OverrideGuard<D> {
    previous: Option<D>,
}

impl<D> OverrideGuard<D> {
    pub closed spec fn spec_previous(&self) -> Option<D> {
        self.previous
    }
}

/// One thread's override slot and the stack of guards it holds, with the
/// process-wide count of threads that have an override.
pub type OverrideState<D> = (Option<D>, Seq<Option<D>>, int);

/// Installing `d`: the slot holds `d`, the guard remembers the old slot, and
/// the count grows when the thread had no override before.
pub open spec fn install_step<D>(s: OverrideState<D>, d: D) -> OverrideState<D> {
    (Some(d), s.1.push(s.0), s.2 + if s.0 is None { 1int } else { 0int })
}

/// Releasing the innermost guard: the slot gets back what the guard remembers,
/// and the count shrinks when that was no override at all.
pub open spec fn release_step<D>(s: OverrideState<D>) -> OverrideState<D> {
    let previous = s.1.last();
    (previous, s.1.drop_last(), s.2 - if previous is None { 1int } else { 0int })
}

/// Installing each of `ds` in turn, the first outermost.
pub open spec fn install_all<D>(s: OverrideState<D>, ds: Seq<D>) -> OverrideState<D>
    decreases ds.len(),
{
    if ds.len() == 0 {
        s
    } else {
        install_step(install_all(s, ds.drop_last()), ds.last())
    }
}

/// Releasing the `k` innermost guards, innermost first.
pub open spec fn release_all<D>(s: OverrideState<D>, k: nat) -> OverrideState<D>
    decreases k,
{
    if k == 0 {
        s
    } else {
        release_all(release_step(s), (k - 1) as nat)
    }
}

proof fn lemma_install_then_release<D>(s: OverrideState<D>, ds: Seq<D>)
    ensures
        release_all(install_all(s, ds), ds.len()) == s,
    decreases ds.len(),
{
    if ds.len() > 0 {
        let inner = install_all(s, ds.drop_last());
        let t = install_step(inner, ds.last());
        assert(t.1.drop_last() =~= inner.1);
        assert(release_step(t) == inner);
        lemma_release_all_shift(t, ds.len());
        lemma_install_then_release(s, ds.drop_last());
    }
}

proof fn lemma_release_all_shift<D>(t: OverrideState<D>, k: nat)
    requires
        k > 0,
    ensures
        release_all(t, k) == release_all(release_step(t), (k - 1) as nat),
{
}

/// Installing `k` nested overrides and then releasing them, innermost first,
/// leaves the slot as it was and the override count at its initial value.
pub proof fn law_nested_overrides_restore<D>(slot: Option<D>, guards: Seq<Option<D>>, count: int, ds: Seq<D>)
    ensures
        release_all(install_all((slot, guards, count), ds), ds.len()) == (slot, guards, count),
{
    lemma_install_then_release((slot, guards, count), ds);
}

/// Installs `dispatcher` as the thread's override.
///
/// Returns the guard that restores the previous override, and whether the
/// thread had no override before (the override count must then grow by one).
pub fn install_override<D>(slot: &mut Option<D>, dispatcher: D) -> (r: (OverrideGuard<D>, bool))
    ensures
        *final(slot) == Some(dispatcher),
        r.0.spec_previous() == *old(slot),
        r.1 == (*old(slot) is None),
        forall|guards: Seq<Option<D>>, count: int|
            #[trigger] install_step((*old(slot), guards, count), dispatcher) == (
                *final(slot),
                guards.push(r.0.spec_previous()),
                count + if r.1 { 1int } else { 0int },
            ),
{
    let previous = slot.take();
    let first = previous.is_none();
    *slot = Some(dispatcher);
    (OverrideGuard { previous }, first)
}

/// Releases an override: the slot gets back what `guard` remembers.
///
/// Returns what the slot held, and whether the thread now has no override at
/// all (the override count must then shrink by one).
pub fn release_override<D>(slot: &mut Option<D>, guard: OverrideGuard<D>) -> (r: (Option<D>, bool))
    ensures
        *final(slot) == guard.spec_previous(),
        r.0 == *old(slot),
        r.1 == (guard.spec_previous() is None),
        forall|guards: Seq<Option<D>>, count: int|
            #[trigger] release_step((*old(slot), guards.push(guard.spec_previous()), count)) == (
                *final(slot),
                guards,
                count - if r.1 { 1int } else { 0int },
            ),
{
    let current = slot.take();
    let last = guard.previous.is_none();
    *slot = guard.previous;
    assert forall|guards: Seq<Option<D>>, count: int|
        #[trigger] release_step((current, guards.push(guard.spec_previous()), count)) == (
            *slot,
            guards,
            count - if last { 1int } else { 0int },
        ) by {
        assert(guards.push(guard.spec_previous()).drop_last() =~= guards);
    }
    (current, last)
}

/// Chooses the dispatcher for an emission: the thread's override while any
/// thread has one and this thread does, else the global one, else none.
pub fn select_dispatcher<'a, D>(override_count: usize, local: Option<&'a D>, global: Option<&'a D>) -> (r:
    Option<&'a D>)
    ensures
        r == (if override_count > 0 && local is Some { local } else { global }),
{
    if override_count > 0 {
        if let Some(d) = local {
            return Some(d);
        }
    }
    global
}

} // verus!
