//! The host-call protocol: the closed set of messages a running sandbox can
//! emit to the host, the events the host dispatches into the sandbox, and
//! the correlation table that pairs every asynchronous call with the one
//! continuation its result may resume.

use vstd::prelude::*;

use crate::types::{EngineError, RequestObject, ResponseObject};

verus! {

/// A message emitted by sandboxed code, of one of two disjoint kinds.
#[derive(Clone, Debug)]
pub enum ServiceCall {
    /// Handled inline on the instance's own thread; the sandbox blocks until
    /// the call returns, and the call never suspends on external I/O.
    Sync(SyncCall),
    /// A pending operation whose completion is awaited outside the sandbox's
    /// execution slice; its result resumes the matching continuation later.
    Async(AsyncCallV),
}

/// A cryptographic operation requested by the sandbox, handled inline.
#[derive(Clone, Debug)]
pub struct CryptoCall {
    pub op: String,
    pub data: Vec<u8>,
}

/// The synchronous host calls.
#[derive(Clone, Debug)]
pub enum SyncCall {
    Log(String),
    Done,
    SendFetchResponse(ResponseObject),
    GetRandomValues,
    GetFile(String),
    Crypto(CryptoCall),
}

/// An asynchronous host call together with its binary payloads, which travel
/// out-of-band from the call's metadata.
#[derive(Clone, Debug)]
pub struct AsyncCall {
    pub v: AsyncCallV,
    pub buffers: Vec<Vec<u8>>,
}

/// The asynchronous host calls.
#[derive(Clone, Debug)]
pub enum AsyncCallV {
    SetTimeout(u64),
    Fetch(RequestObject),
    KvGet { namespace: String, lock: bool },
    KvPut { namespace: String },
    KvDelete { namespace: String },
    KvScan { namespace: String, limit: u32, lock: bool },
    KvBeginTransaction,
    KvRollbackTransaction,
    KvCommitTransaction,
}

/// An event the host dispatches into a running sandbox.
#[derive(Clone, Debug)]
pub enum ServiceEvent {
    Fetch(FetchEvent),
}

/// A request handed to the instance's fetch handler.
#[derive(Clone, Debug)]
pub struct FetchEvent {
    pub request: RequestObject,
}

/// The correlation table of an instance's asynchronous calls.
///
/// Every asynchronous call is issued a fresh identifier, and its eventual
/// result may resume only the continuation registered under that identifier:
/// each call completes at most once, and a completion that names no pending
/// call is a protocol violation, never silently ignored.
pub struct PendingCalls {
    next_call_id: u64,
    pending: Vec<u64>,
}

impl PendingCalls {
    /// The identifiers of the asynchronous calls still awaiting their result.
    pub closed spec fn pending_ids(self) -> Seq<u64> {
        self.pending@
    }

    /// The identifier the next issued call will get.
    pub closed spec fn next_id(self) -> u64 {
        self.next_call_id
    }

    /// Whether a call with this identifier is awaiting its result.
    pub open spec fn is_pending(self, id: u64) -> bool {
        self.pending_ids().contains(id)
    }

    /// Well-formedness: no identifier is pending twice, and every pending
    /// identifier was issued before the counter's current value.
    pub open spec fn wf(self) -> bool {
        &&& self.pending_ids().no_duplicates()
        &&& (forall|i: int|
            0 <= i < self.pending_ids().len() ==> #[trigger] self.pending_ids()[i]
                < self.next_id())
    }

    /// An empty table: no calls pending.
    pub fn new() -> (r: PendingCalls)
        ensures
            r.wf(),
            r.pending_ids() == Seq::<u64>::empty(),
            r.next_id() == 0,
    {
        PendingCalls { next_call_id: 0, pending: Vec::new() }
    }

    /// Issues a fresh identifier for one asynchronous call. The identifier
    /// is distinct from every identifier still pending and from every
    /// identifier ever issued before.
    pub fn begin(&mut self) -> (id: u64)
        requires
            old(self).wf(),
            old(self).next_id() < u64::MAX,
        ensures
            final(self).wf(),
            id == old(self).next_id(),
            !old(self).is_pending(id),
            final(self).pending_ids() == old(self).pending_ids().push(id),
            final(self).next_id() == old(self).next_id() + 1,
    {
        let id = self.next_call_id;
        proof {
            if self.pending_ids().contains(id) {
                let i = choose|i: int|
                    0 <= i < self.pending_ids().len() && self.pending_ids()[i] == id;
                assert(self.pending_ids()[i] < self.next_id());
            }
        }
        self.next_call_id = self.next_call_id + 1;
        self.pending.push(id);
        id
    }

    /// Delivers the result of the asynchronous call with this identifier,
    /// consuming it: the identifier is pending no longer, so the same call
    /// can never be completed twice, and a completion that names no pending
    /// call fails as a protocol violation.
    pub fn complete(&mut self, id: u64) -> (r: Result<(), EngineError>)
        requires
            old(self).wf(),
        ensures
            final(self).wf(),
            final(self).next_id() == old(self).next_id(),
            r is Ok <==> old(self).is_pending(id),
            !final(self).is_pending(id),
            forall|other: u64|
                other != id ==> (final(self).is_pending(other) == old(self).is_pending(other)),
            r is Err ==> r == Err::<(), EngineError>(EngineError::ProtocolViolation)
                && final(self).pending_ids() == old(self).pending_ids(),
    {
        let ghost pending0 = self.pending@;
        let mut i: usize = 0;
        while i < self.pending.len()
            invariant
                pending0 == old(self).pending@,
                self.pending@ == pending0,
                self.next_call_id == old(self).next_call_id,
                pending0.no_duplicates(),
                forall|j: int|
                    0 <= j < pending0.len() ==> #[trigger] pending0[j] < old(self).next_call_id,
                i <= pending0.len(),
                forall|j: int| 0 <= j < i ==> pending0[j] != id,
            decreases pending0.len() - i,
        {
            if self.pending[i] == id {
                self.pending.remove(i);
                proof {
                    assert(pending0.contains(id));
                    lemma_remove_pending(pending0, i as int, id, self.pending@);
                    assert forall|j: int|
                        0 <= j < self.pending@.len() implies #[trigger] self.pending@[j]
                        < self.next_call_id by {
                        assert(pending0.contains(self.pending@[j]));
                        let k = choose|k: int|
                            0 <= k < pending0.len() && pending0[k] == self.pending@[j];
                        assert(pending0[k] < self.next_call_id);
                    }
                }
                return Ok(());
            }
            i = i + 1;
        }
        proof {
            if pending0.contains(id) {
                let j = choose|j: int| 0 <= j < pending0.len() && pending0[j] == id;
            }
        }
        Err(EngineError::ProtocolViolation)
    }
}

/// Removing the one occurrence of `id` at index `i` from a duplicate-free
/// sequence leaves exactly the other elements pending.
proof fn lemma_remove_pending(s: Seq<u64>, i: int, id: u64, t: Seq<u64>)
    requires
        s.no_duplicates(),
        0 <= i < s.len(),
        s[i] == id,
        t == s.remove(i),
    ensures
        t.no_duplicates(),
        !t.contains(id),
        forall|other: u64| other != id ==> (t.contains(other) == s.contains(other)),
        forall|j: int| 0 <= j < t.len() ==> s.contains(#[trigger] t[j]),
{
    s.remove_ensures(i);
    assert(!t.contains(id)) by {
        if t.contains(id) {
            let j = choose|j: int| 0 <= j < t.len() && t[j] == id;
            if j < i {
                assert(s[j] == id);
            } else {
                assert(s[j + 1] == id);
            }
        }
    }
    assert forall|other: u64| other != id implies (t.contains(other) == s.contains(
        other,
    )) by {
        if t.contains(other) {
            let j = choose|j: int| 0 <= j < t.len() && t[j] == other;
            if j < i {
                assert(s[j] == other);
            } else {
                assert(s[j + 1] == other);
            }
        }
        if s.contains(other) {
            let j = choose|j: int| 0 <= j < s.len() && s[j] == other;
            if j < i {
                assert(t[j] == other);
            } else {
                assert(j != i);
                assert(t[j - 1] == other);
            }
        }
    }
}

/// An identifier the table has not yet issued is pending for no call, so a
/// result that arrives under it can resume nothing: every completion is
/// correlated to a call that was actually begun.
pub proof fn lemma_unissued_call_not_pending(p: PendingCalls, id: u64)
    requires
        p.wf(),
        id >= p.next_id(),
    ensures
        !p.is_pending(id),
{
    if p.is_pending(id) {
        let i = choose|i: int| 0 <= i < p.pending_ids().len() && p.pending_ids()[i] == id;
        assert(p.pending_ids()[i] < p.next_id());
    }
}

} // verus!
