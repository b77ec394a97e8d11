//! The runtime manager: owner of the bounded, time-expiring registry of live
//! instances, and the decision core of spawn, fetch, terminate and list.
//!
//! The sandbox itself runs on a dedicated thread outside this module; the
//! orchestration layer hands the outcome of instance construction to `spawn`
//! and forwards a slot returned by `fetch` to the instance behind it. Entries
//! may be evicted by capacity or by time-to-live inside the backing cache, so
//! the contracts here promise membership only as far as the cache's own
//! behaviour allows: what is removed stays absent, and nothing is ever looked
//! up that was not registered.

use vstd::prelude::*;

use crate::registry::{
    cache_capacity, cache_contents, cache_get, cache_insert, cache_keys, cache_new, cache_remove,
    LruRegistry,
};
use crate::types::{EngineError, WorkerHandle};

verus! {

/// Time-to-live of a registry entry, in seconds.
pub const REGISTRY_TTL_SECS: u64 = 600;

/// Largest number of instances the registry holds at once.
pub const REGISTRY_CAPACITY: usize = 100;

/// The lifecycle orchestrator: a registry of live instances plus the counter
/// from which fresh worker handles are issued.
pub struct Runtime {
    instances: LruRegistry,
    next_id: u64,
}

impl Runtime {
    /// The currently registered handles, as a map from handle identifier to
    /// the slot index of the live instance behind it.
    pub closed spec fn registered(self) -> Map<u64, u64> {
        cache_contents(self.instances)
    }

    /// The identifier the next successful spawn will issue.
    pub closed spec fn next_handle_id(self) -> u64 {
        self.next_id
    }

    /// The registry's capacity bound.
    pub closed spec fn capacity(self) -> nat {
        cache_capacity(self.instances)
    }

    /// Well-formedness: every registered identifier was issued before the
    /// counter's current value, and the registry respects its capacity.
    pub open spec fn wf(self) -> bool {
        &&& self.registered().dom().finite()
        &&& (forall|k: u64|
            self.registered().dom().contains(k) ==> k < self.next_handle_id())
        &&& self.registered().len() <= self.capacity()
        &&& self.capacity() >= 1
    }

    /// A lookup of this identifier is bound to fail with `NoSuchWorker`.
    pub open spec fn lookup_must_fail(self, id: u64) -> bool {
        !self.registered().dom().contains(id)
    }

    /// A fresh runtime with an empty registry.
    pub fn new() -> (r: Runtime)
        ensures
            r.wf(),
            r.registered().dom() =~= Set::<u64>::empty(),
            r.next_handle_id() == 0,
    {
        let instances = cache_new(REGISTRY_TTL_SECS, REGISTRY_CAPACITY);
        proof {
            assert(cache_contents(instances).dom() =~= Set::<u64>::empty());
        }
        Runtime { instances, next_id: 0 }
    }

    /// Registers the outcome of one spawn attempt.
    ///
    /// The caller has already started the instance's dedicated thread and
    /// waited for it to report either the slot of a ready instance or an
    /// initialization failure. On success a fresh handle - one never issued
    /// before, and in particular not currently registered - is bound to the
    /// slot; on failure the error propagates and the registry is untouched.
    pub fn spawn(&mut self, init_result: Result<u64, EngineError>) -> (r: Result<
        WorkerHandle,
        EngineError,
    >)
        requires
            old(self).wf(),
            old(self).next_handle_id() < u64::MAX,
        ensures
            final(self).wf(),
            match r {
                Ok(h) => {
                    &&& init_result is Ok
                    &&& h.id == old(self).next_handle_id()
                    &&& !old(self).registered().dom().contains(h.id)
                    &&& final(self).registered().contains_pair(h.id, init_result->Ok_0)
                    &&& final(self).registered().submap_of(
                        old(self).registered().insert(h.id, init_result->Ok_0),
                    )
                    &&& final(self).next_handle_id() == old(self).next_handle_id() + 1
                },
                Err(e) => {
                    &&& init_result == Err::<u64, EngineError>(e)
                    &&& *final(self) == *old(self)
                },
            },
    {
        match init_result {
            Ok(slot) => {
                let handle = WorkerHandle { id: self.next_id };
                self.next_id = self.next_id + 1;
                cache_insert(&mut self.instances, handle.id, slot);
                proof {
                    assert forall|k: u64| self.registered().dom().contains(k) implies k
                        < self.next_id by {
                        assert(self.registered().contains_pair(k, self.registered()[k]));
                        assert(old(self).registered().insert(handle.id, slot).contains_pair(
                            k,
                            self.registered()[k],
                        ));
                    }
                }
                Ok(handle)
            },
            Err(e) => Err(e),
        }
    }

    /// Removes the handle's entry from the registry.
    ///
    /// Removal alone is the whole of termination here: the watchdog and the
    /// instance thread detect the orphaning and wind down; a forced abort is
    /// reserved for the watchdog's timeout path. A handle that is not
    /// registered is reported as `NoSuchWorker`, never as a crash.
    pub fn terminate(&mut self, worker_handle: &WorkerHandle) -> (r: Result<(), EngineError>)
        requires
            old(self).wf(),
        ensures
            final(self).wf(),
            final(self).registered() == old(self).registered().remove(worker_handle.id),
            final(self).lookup_must_fail(worker_handle.id),
            final(self).next_handle_id() == old(self).next_handle_id(),
            r == (if old(self).registered().dom().contains(worker_handle.id) {
                Ok::<(), EngineError>(())
            } else {
                Err::<(), EngineError>(EngineError::NoSuchWorker)
            }),
    {
        proof {
            lemma_remove_shrinks(self.registered(), worker_handle.id);
        }
        match cache_remove(&mut self.instances, worker_handle.id) {
            Some(_) => Ok(()),
            None => Err(EngineError::NoSuchWorker),
        }
    }

    /// Looks the handle up and returns the slot of the instance to forward
    /// the request to.
    ///
    /// The caller then submits the request through that slot's instance
    /// handle and surfaces the instance's own result verbatim; an entry that
    /// has expired or was never registered fails with `NoSuchWorker`.
    pub fn fetch(&mut self, worker_handle: &WorkerHandle) -> (r: Result<u64, EngineError>)
        requires
            old(self).wf(),
        ensures
            final(self).wf(),
            final(self).registered().submap_of(old(self).registered()),
            final(self).next_handle_id() == old(self).next_handle_id(),
            match r {
                Ok(slot) => old(self).registered().contains_pair(worker_handle.id, slot)
                    && final(self).registered().contains_pair(worker_handle.id, slot),
                Err(e) => e == EngineError::NoSuchWorker && final(self).lookup_must_fail(
                    worker_handle.id,
                ),
            },
            old(self).lookup_must_fail(worker_handle.id) ==> r is Err,
    {
        let got = cache_get(&mut self.instances, worker_handle.id);
        proof {
            lemma_submap_wf(old(self).registered(), self.registered());
        }
        match got {
            Some(slot) => Ok(slot),
            None => Err(EngineError::NoSuchWorker),
        }
    }

    /// A snapshot of the currently registered handles, in registry iteration
    /// order: every listed handle is registered, every registered handle is
    /// listed, and no handle is listed twice.
    pub fn list(&mut self) -> (r: Vec<WorkerHandle>)
        requires
            old(self).wf(),
        ensures
            final(self).wf(),
            final(self).registered().submap_of(old(self).registered()),
            final(self).next_handle_id() == old(self).next_handle_id(),
            forall|i: int|
                0 <= i < r@.len() ==> final(self).registered().dom().contains(#[trigger] r@[i].id),
            forall|k: u64|
                final(self).registered().dom().contains(k) ==> exists|i: int|
                    0 <= i < r@.len() && #[trigger] r@[i].id == k,
            forall|i: int, j: int| 0 <= i < j < r@.len() ==> r@[i].id != r@[j].id,
    {
        let keys = cache_keys(&mut self.instances);
        proof {
            lemma_submap_wf(old(self).registered(), self.registered());
        }
        let mut out: Vec<WorkerHandle> = Vec::new();
        let mut i: usize = 0;
        while i < keys.len()
            invariant
                i <= keys.len(),
                out@.len() == i,
                forall|j: int| 0 <= j < i ==> (#[trigger] out@[j]).id == keys@[j],
            decreases keys.len() - i,
        {
            out.push(WorkerHandle { id: keys[i] });
            i = i + 1;
        }
        proof {
            assert forall|k: u64| self.registered().dom().contains(k) implies exists|j: int|
                0 <= j < out@.len() && #[trigger] out@[j].id == k by {
                assert(keys@.contains(k));
                let j = choose|j: int| 0 <= j < keys@.len() && keys@[j] == k;
                assert(out@[j].id == k);
            }
        }
        out
    }

    /// The watchdog observed that the instance's thread exited: drop the
    /// entry if it is still registered. A racing `terminate` may already have
    /// removed it; that is a benign no-op, not an error.
    pub fn on_instance_exit(&mut self, worker_handle: &WorkerHandle)
        requires
            old(self).wf(),
        ensures
            final(self).wf(),
            final(self).registered() == old(self).registered().remove(worker_handle.id),
            final(self).lookup_must_fail(worker_handle.id),
            final(self).next_handle_id() == old(self).next_handle_id(),
    {
        proof {
            lemma_remove_shrinks(self.registered(), worker_handle.id);
        }
        let _ = cache_remove(&mut self.instances, worker_handle.id);
    }

    /// The watchdog observed that the instance's deadline elapsed: drop the
    /// entry and hand back the slot of the instance to force-terminate for
    /// time-limit cause, if it was still registered.
    pub fn on_timeout(&mut self, worker_handle: &WorkerHandle) -> (r: Option<u64>)
        requires
            old(self).wf(),
        ensures
            final(self).wf(),
            final(self).registered() == old(self).registered().remove(worker_handle.id),
            final(self).lookup_must_fail(worker_handle.id),
            final(self).next_handle_id() == old(self).next_handle_id(),
            match r {
                Some(slot) => old(self).registered().contains_pair(worker_handle.id, slot),
                None => old(self).lookup_must_fail(worker_handle.id),
            },
    {
        proof {
            lemma_remove_shrinks(self.registered(), worker_handle.id);
        }
        cache_remove(&mut self.instances, worker_handle.id)
    }
}

/// Removing a key from a finite map leaves a submap whose size is no larger.
proof fn lemma_remove_shrinks(m: Map<u64, u64>, k: u64)
    requires
        m.dom().finite(),
    ensures
        m.remove(k).dom().finite(),
        m.remove(k).len() <= m.len(),
        !m.remove(k).dom().contains(k),
{
    assert(m.remove(k).dom() =~= m.dom().remove(k));
    vstd::set_lib::lemma_len_subset(m.remove(k).dom(), m.dom());
}

/// A submap of a well-formed registry's contents is finite and no larger.
proof fn lemma_submap_wf(m1: Map<u64, u64>, m2: Map<u64, u64>)
    requires
        m1.dom().finite(),
        m2.submap_of(m1),
    ensures
        m2.dom().finite(),
        m2.len() <= m1.len(),
        forall|k: u64| m2.dom().contains(k) ==> m1.dom().contains(k),
{
    assert(m2.dom().subset_of(m1.dom()));
    vstd::set_lib::lemma_len_subset(m2.dom(), m1.dom());
}

/// For every successful spawn, the issued handle is unique among the
/// currently registered handles: the identifier the counter is about to
/// issue is registered to no live instance.
pub proof fn lemma_spawned_handle_fresh(rt: Runtime, h: WorkerHandle)
    requires
        rt.wf(),
        h.id >= rt.next_handle_id(),
    ensures
        !rt.registered().dom().contains(h.id),
{
}

/// After a handle is removed from the registry - by `terminate`, by the
/// watchdog, or by the instance's own exit - a subsequent lookup of that
/// handle must fail with `NoSuchWorker`, even while the instance thread is
/// still finishing in-flight work: absence from the registry is what `fetch`
/// keys its failure on.
pub proof fn lemma_terminated_handle_stays_unreachable(before: Runtime, after: Runtime, h: WorkerHandle)
    requires
        after.registered() == before.registered().remove(h.id),
    ensures
        after.lookup_must_fail(h.id),
{
}

} // verus!
