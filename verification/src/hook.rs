//! Keeping track of the call redirections that have been installed.
//!
//! The manager does not patch code. It decides whether a redirection may be
//! installed, enabled or disabled, and records the outcome; writing the
//! redirection is the caller's part. Each target address has at most one
//! hook, so a call to a target has exactly one interceptor to go to.

use vstd::prelude::*;

verus! {

/// How far a hook has come.
#[derive(Clone, Copy, Debug, PartialEq, Eq)]
pub enum HookState {
    /// Nothing is installed at the target.
    Uninitialized,
    /// The redirection is prepared and not yet in effect.
    Installed,
    /// Calls to the target go to the interceptor.
    Enabled,
    /// The redirection was in effect and has been taken back.
    Disabled,
}

/// Why an operation on a hook was refused.
#[derive(Clone, Copy, Debug, PartialEq, Eq)]
pub enum HookError {
    /// The target address has a hook already.
    AlreadyHooked,
    /// The redirection could not be written.
    InstallFailure,
    /// The target address has no hook.
    NotInstalled,
    /// A call through the hook is under way.
    CallInFlight,
    /// No call is being intercepted.
    NotIntercepting,
}

/// What is known of the hook on one target address.
#[derive(Clone, Copy, Debug, PartialEq, Eq)]
pub struct Hook {
    /// The function that calls to the target are sent to.
    pub interceptor: u64,
    pub state: HookState,
    /// How many intercepted calls have begun and not ended.
    pub in_flight: u64,
}

#[derive(Clone, Copy, Debug)]
struct Record {
    target: u64,
    hook: Hook,
}

/// The hooks of a process, by target address.
#[derive(Debug)]
pub struct HookManager {
    records: Vec<Record>,
}

spec fn holds(records: Seq<Record>, target: u64, i: int) -> bool {
    0 <= i < records.len() && records[i].target == target
}

spec fn distinct(records: Seq<Record>) -> bool {
    forall|i: int, j: int|
        0 <= i < j < records.len() ==> (#[trigger] records[i]).target != (
        #[trigger] records[j]).target
}

spec fn table(records: Seq<Record>) -> Map<u64, Hook> {
    Map::new(
        |target: u64| exists|i: int| holds(records, target, i),
        |target: u64| records[choose|i: int| holds(records, target, i)].hook,
    )
}

proof fn lemma_table_at(records: Seq<Record>, i: int)
    requires
        distinct(records),
        0 <= i < records.len(),
    ensures
        table(records).dom().contains(records[i].target),
        table(records)[records[i].target] == records[i].hook,
{
    let target = records[i].target;
    assert(holds(records, target, i));
    let chosen = choose|k: int| holds(records, target, k);
    assert(holds(records, target, chosen));
    if chosen < i {
        assert(records[chosen].target != records[i].target);
    } else if i < chosen {
        assert(records[i].target != records[chosen].target);
    }
}

proof fn lemma_table_update(records: Seq<Record>, i: int, hook: Hook)
    requires
        distinct(records),
        0 <= i < records.len(),
    ensures
        distinct(records.update(i, Record { target: records[i].target, hook })),
        table(records.update(i, Record { target: records[i].target, hook })) == table(
            records,
        ).insert(records[i].target, hook),
{
    let target = records[i].target;
    let changed = records.update(i, Record { target, hook });
    assert forall|a: int, b: int| 0 <= a < b < changed.len() implies (#[trigger] changed[a]).target
        != (#[trigger] changed[b]).target by {
        assert(records[a].target != records[b].target);
    }
    assert forall|t: u64| #[trigger]
        table(changed).dom().contains(t) == table(records).insert(target, hook).dom().contains(
            t,
        ) by {
        if exists|k: int| holds(changed, t, k) {
            let k = choose|k: int| holds(changed, t, k);
            assert(holds(records, t, k));
        }
        if exists|k: int| holds(records, t, k) {
            let k = choose|k: int| holds(records, t, k);
            assert(holds(changed, t, k));
        }
        assert(holds(records, target, i));
    }
    assert forall|t: u64| table(changed).dom().contains(t) implies #[trigger] table(changed)[t]
        == table(records).insert(target, hook)[t] by {
        let k = choose|k: int| holds(changed, t, k);
        lemma_table_at(changed, k);
        if t != target {
            assert(k != i);
            lemma_table_at(records, k);
        } else {
            lemma_table_at(changed, i);
        }
    }
    assert(table(changed) =~= table(records).insert(target, hook));
}

proof fn lemma_table_push(records: Seq<Record>, target: u64, hook: Hook)
    requires
        distinct(records),
        !table(records).dom().contains(target),
    ensures
        distinct(records.push(Record { target, hook })),
        table(records.push(Record { target, hook })) == table(records).insert(target, hook),
{
    let grown = records.push(Record { target, hook });
    let last = records.len() as int;
    assert forall|a: int, b: int| 0 <= a < b < grown.len() implies (#[trigger] grown[a]).target != (
    #[trigger] grown[b]).target by {
        if b == last {
            assert(!holds(records, target, a));
        } else {
            assert(records[a].target != records[b].target);
        }
    }
    assert forall|t: u64| #[trigger]
        table(grown).dom().contains(t) == table(records).insert(target, hook).dom().contains(
            t,
        ) by {
        if exists|k: int| holds(grown, t, k) {
            let k = choose|k: int| holds(grown, t, k);
            if k < last {
                assert(holds(records, t, k));
            }
        }
        if exists|k: int| holds(records, t, k) {
            let k = choose|k: int| holds(records, t, k);
            assert(holds(grown, t, k));
        }
        assert(holds(grown, target, last));
    }
    assert forall|t: u64| table(grown).dom().contains(t) implies #[trigger] table(grown)[t]
        == table(records).insert(target, hook)[t] by {
        let k = choose|k: int| holds(grown, t, k);
        lemma_table_at(grown, k);
        if t != target {
            assert(k != last);
            lemma_table_at(records, k);
        } else {
            lemma_table_at(grown, last);
        }
    }
    assert(table(grown) =~= table(records).insert(target, hook));
}

impl View for HookManager {
    type V = Map<u64, Hook>;

    /// The hooks by their target addresses.
    closed spec fn view(&self) -> Map<u64, Hook> {
        table(self.records@)
    }
}

impl HookManager {
    /// No two hooks share a target address.
    pub closed spec fn well_formed(&self) -> bool {
        distinct(self.records@)
    }

    /// The state of the hook on `target`.
    pub open spec fn spec_state(&self, target: u64) -> HookState {
        if self@.dom().contains(target) {
            self@[target].state
        } else {
            HookState::Uninitialized
        }
    }

    /// Where a call to `target` goes: to the interceptor of an enabled hook,
    /// or nowhere but the target itself.
    pub open spec fn spec_route(&self, target: u64) -> Option<u64> {
        if self@.dom().contains(target) && self@[target].state == HookState::Enabled {
            Some(self@[target].interceptor)
        } else {
            None
        }
    }

    /// A manager without hooks.
    pub fn new() -> (manager: Self)
        ensures
            manager.well_formed(),
            manager@ == Map::<u64, Hook>::empty(),
    {
        let manager = HookManager { records: Vec::new() };
        assert(manager@ =~= Map::<u64, Hook>::empty());
        manager
    }

    fn find(&self, target: u64) -> (r: Option<usize>)
        requires
            self.well_formed(),
        ensures
            r is Some <==> self@.dom().contains(target),
            r is Some ==> r.unwrap() < self.records@.len() && self.records@[r.unwrap() as int].target
                == target && self.records@[r.unwrap() as int].hook == self@[target],
    {
        let mut i: usize = 0;
        while i < self.records.len()
            invariant
                self.well_formed(),
                i <= self.records@.len(),
                forall|k: int| 0 <= k < i ==> !holds(self.records@, target, k),
            decreases self.records@.len() - i,
        {
            if self.records[i].target == target {
                proof {
                    lemma_table_at(self.records@, i as int);
                }
                return Some(i);
            }
            i += 1;
        }
        assert forall|k: int| !holds(self.records@, target, k) by {}
        None
    }

    /// The hook on `target`, if there is one.
    pub fn hook(&self, target: u64) -> (r: Option<Hook>)
        requires
            self.well_formed(),
        ensures
            r is Some <==> self@.dom().contains(target),
            r is Some ==> r.unwrap() == self@[target],
    {
        match self.find(target) {
            Some(i) => Some(self.records[i].hook),
            None => None,
        }
    }

    /// The state of the hook on `target`.
    pub fn state(&self, target: u64) -> (r: HookState)
        requires
            self.well_formed(),
        ensures
            r == self.spec_state(target),
    {
        match self.find(target) {
            Some(i) => self.records[i].hook.state,
            None => HookState::Uninitialized,
        }
    }

    /// Whether `target` has a hook, in whatever state.
    pub fn is_hooked(&self, target: u64) -> (r: bool)
        requires
            self.well_formed(),
        ensures
            r == self@.dom().contains(target),
    {
        self.find(target).is_some()
    }

    fn replace(&mut self, i: usize, hook: Hook)
        requires
            old(self).well_formed(),
            i < old(self).records@.len(),
        ensures
            final(self).well_formed(),
            final(self)@ == old(self)@.insert(old(self).records@[i as int].target, hook),
    {
        let target = self.records[i].target;
        proof {
            lemma_table_update(self.records@, i as int, hook);
        }
        self.records.set(i, Record { target, hook });
    }

    /// Records a hook on `target` that sends calls to `interceptor`.
    /// `redirection_written` tells whether the caller managed to prepare
    /// the redirection. A target that has a hook is refused whatever the
    /// caller managed; the manager is then left as it was, as it is when the
    /// redirection could not be written.
    pub fn install(&mut self, target: u64, interceptor: u64, redirection_written: bool) -> (r:
        Result<Hook, HookError>)
        requires
            old(self).well_formed(),
        ensures
            final(self).well_formed(),
            old(self)@.dom().contains(target) ==> r == Err::<Hook, HookError>(
                HookError::AlreadyHooked,
            ) && final(self)@ == old(self)@,
            !old(self)@.dom().contains(target) && !redirection_written ==> r == Err::<
                Hook,
                HookError,
            >(HookError::InstallFailure) && final(self)@ == old(self)@,
            !old(self)@.dom().contains(target) && redirection_written ==> r == Ok::<
                Hook,
                HookError,
            >(Hook { interceptor, state: HookState::Installed, in_flight: 0 }) && final(self)@
                == old(self)@.insert(
                target,
                Hook { interceptor, state: HookState::Installed, in_flight: 0 },
            ),
    {
        if self.find(target).is_some() {
            return Err(HookError::AlreadyHooked);
        }
        if !redirection_written {
            return Err(HookError::InstallFailure);
        }
        let hook = Hook { interceptor, state: HookState::Installed, in_flight: 0 };
        proof {
            lemma_table_push(self.records@, target, hook);
        }
        self.records.push(Record { target, hook });
        Ok(hook)
    }

    /// Puts the redirection on `target` into effect. From then on calls to
    /// the target go to the interceptor. A hook that is enabled stays so.
    pub fn enable(&mut self, target: u64) -> (r: Result<(), HookError>)
        requires
            old(self).well_formed(),
        ensures
            final(self).well_formed(),
            !old(self)@.dom().contains(target) ==> r == Err::<(), HookError>(
                HookError::NotInstalled,
            ) && final(self)@ == old(self)@,
            old(self)@.dom().contains(target) ==> r is Ok && final(self)@ == old(self)@.insert(
                target,
                Hook { state: HookState::Enabled, ..old(self)@[target] },
            ),
    {
        match self.find(target) {
            Some(i) => {
                let hook = self.records[i].hook;
                self.replace(i, Hook { state: HookState::Enabled, ..hook });
                Ok(())
            },
            None => Err(HookError::NotInstalled),
        }
    }

    /// Takes the redirection on `target` back. This is done between calls
    /// only: while an intercepted call is under way the hook is left alone.
    /// A hook that was never enabled stays as it is.
    pub fn disable(&mut self, target: u64) -> (r: Result<(), HookError>)
        requires
            old(self).well_formed(),
        ensures
            final(self).well_formed(),
            !old(self)@.dom().contains(target) ==> r == Err::<(), HookError>(
                HookError::NotInstalled,
            ) && final(self)@ == old(self)@,
            old(self)@.dom().contains(target) && old(self)@[target].in_flight > 0 ==> r == Err::<
                (),
                HookError,
            >(HookError::CallInFlight) && final(self)@ == old(self)@,
            old(self)@.dom().contains(target) && old(self)@[target].in_flight == 0 ==> r is Ok
                && final(self)@ == old(self)@.insert(
                target,
                Hook {
                    state: if old(self)@[target].state == HookState::Enabled {
                        HookState::Disabled
                    } else {
                        old(self)@[target].state
                    },
                    ..old(self)@[target]
                },
            ),
    {
        match self.find(target) {
            Some(i) => {
                let hook = self.records[i].hook;
                if hook.in_flight > 0 {
                    return Err(HookError::CallInFlight);
                }
                let state = match hook.state {
                    HookState::Enabled => HookState::Disabled,
                    other => other,
                };
                self.replace(i, Hook { state, ..hook });
                Ok(())
            },
            None => Err(HookError::NotInstalled),
        }
    }

    /// Notes that a call to `target` has arrived and says where it goes:
    /// to the interceptor of an enabled hook, which is then counted as
    /// under way, or, with `None`, straight to the target. A call that can
    /// no longer be counted goes straight to the target too.
    pub fn enter(&mut self, target: u64) -> (r: Option<u64>)
        requires
            old(self).well_formed(),
        ensures
            final(self).well_formed(),
            match old(self).spec_route(target) {
                Some(interceptor) => if old(self)@[target].in_flight < u64::MAX {
                    r == Some(interceptor) && final(self)@ == old(self)@.insert(
                        target,
                        Hook {
                            in_flight: (old(self)@[target].in_flight + 1) as u64,
                            ..old(self)@[target]
                        },
                    )
                } else {
                    r is None && final(self)@ == old(self)@
                },
                None => r is None && final(self)@ == old(self)@,
            },
    {
        match self.find(target) {
            Some(i) => {
                let hook = self.records[i].hook;
                match hook.state {
                    HookState::Enabled => {
                        if hook.in_flight < u64::MAX {
                            self.replace(i, Hook { in_flight: hook.in_flight + 1, ..hook });
                            Some(hook.interceptor)
                        } else {
                            None
                        }
                    },
                    _ => None,
                }
            },
            None => None,
        }
    }

    /// Grants the interceptor of `target` its call of the original
    /// function, and returns the address whose original code is to run.
    /// Only an interceptor that is handling a call is granted one.
    pub fn call_through(&self, target: u64) -> (r: Result<u64, HookError>)
        requires
            self.well_formed(),
        ensures
            !self@.dom().contains(target) ==> r == Err::<u64, HookError>(HookError::NotInstalled),
            self@.dom().contains(target) && self@[target].in_flight == 0 ==> r == Err::<
                u64,
                HookError,
            >(HookError::NotIntercepting),
            self@.dom().contains(target) && self@[target].in_flight > 0 ==> r == Ok::<
                u64,
                HookError,
            >(target),
    {
        match self.find(target) {
            Some(i) => {
                if self.records[i].hook.in_flight > 0 {
                    Ok(target)
                } else {
                    Err(HookError::NotIntercepting)
                }
            },
            None => Err(HookError::NotInstalled),
        }
    }

    /// Notes that an intercepted call to `target` has ended.
    pub fn leave(&mut self, target: u64) -> (r: Result<(), HookError>)
        requires
            old(self).well_formed(),
        ensures
            final(self).well_formed(),
            !old(self)@.dom().contains(target) ==> r == Err::<(), HookError>(
                HookError::NotInstalled,
            ) && final(self)@ == old(self)@,
            old(self)@.dom().contains(target) && old(self)@[target].in_flight == 0 ==> r == Err::<
                (),
                HookError,
            >(HookError::NotIntercepting) && final(self)@ == old(self)@,
            old(self)@.dom().contains(target) && old(self)@[target].in_flight > 0 ==> r is Ok
                && final(self)@ == old(self)@.insert(
                target,
                Hook {
                    in_flight: (old(self)@[target].in_flight - 1) as u64,
                    ..old(self)@[target]
                },
            ),
    {
        match self.find(target) {
            Some(i) => {
                let hook = self.records[i].hook;
                if hook.in_flight == 0 {
                    return Err(HookError::NotIntercepting);
                }
                self.replace(i, Hook { in_flight: hook.in_flight - 1, ..hook });
                Ok(())
            },
            None => Err(HookError::NotInstalled),
        }
    }
}

} // verus!
