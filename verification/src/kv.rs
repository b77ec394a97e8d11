//! Model of the key-value storage capability the sandbox's asynchronous
//! calls are forwarded to.
//!
//! The store maps a (namespace, key) pair to a byte value. Writes are
//! visible to later reads under the same pair until deleted; a scan walks
//! one namespace from a starting key and returns at most the requested
//! number of keys, in an order that is a function of the store's state alone
//! and therefore stable across repeated scans absent mutation. A transaction
//! buffers writes and applies them all on commit or none on rollback.

use vstd::prelude::*;

use crate::types::{EngineError, KvNamespaceBinding};

verus! {

/// One stored binding: a value under a key inside a namespace.
pub struct KvEntry {
    pub namespace: Vec<u8>,
    pub key: Vec<u8>,
    pub value: Vec<u8>,
}

/// A buffered transactional write.
pub enum KvOp {
    Put { namespace: Vec<u8>, key: Vec<u8>, value: Vec<u8> },
    Delete { namespace: Vec<u8>, key: Vec<u8> },
}

/// The abstract key of an entry: its namespace and key.
pub type KvKey = (Seq<u8>, Seq<u8>);

/// Whether an entry is the binding for this namespace and key.
pub open spec fn entry_matches(e: KvEntry, ns: Seq<u8>, key: Seq<u8>) -> bool {
    e.namespace@ == ns && e.key@ == key
}

/// The map an entry list denotes: each entry binds its (namespace, key) to
/// its value, later entries taking precedence.
pub closed spec fn entries_map(s: Seq<KvEntry>) -> Map<KvKey, Seq<u8>>
    decreases s.len(),
{
    if s.len() == 0 {
        Map::empty()
    } else {
        entries_map(s.drop_last()).insert(
            (s.last().namespace@, s.last().key@),
            s.last().value@,
        )
    }
}

/// No two entries bind the same (namespace, key).
pub open spec fn unique_keys(s: Seq<KvEntry>) -> bool {
    forall|i: int, j: int|
        0 <= i < j < s.len() ==> !entry_matches(#[trigger] s[i], (#[trigger] s[j]).namespace@, s[j].key@)
}

/// Byte-wise lexicographic order: `a` is at or before `b`.
pub open spec fn bytes_le(a: Seq<u8>, b: Seq<u8>) -> bool
    decreases a.len(),
{
    if a.len() == 0 {
        true
    } else if b.len() == 0 {
        false
    } else if a[0] < b[0] {
        true
    } else if a[0] > b[0] {
        false
    } else {
        bytes_le(a.skip(1), b.skip(1))
    }
}

/// What one buffered write does to the store's map.
pub open spec fn spec_apply_op(m: Map<KvKey, Seq<u8>>, op: KvOp) -> Map<KvKey, Seq<u8>> {
    match op {
        KvOp::Put { namespace, key, value } => m.insert((namespace@, key@), value@),
        KvOp::Delete { namespace, key } => m.remove((namespace@, key@)),
    }
}

/// What a whole buffer of writes does, applied in order.
pub open spec fn spec_apply_ops(m: Map<KvKey, Seq<u8>>, ops: Seq<KvOp>) -> Map<KvKey, Seq<u8>>
    decreases ops.len(),
{
    if ops.len() == 0 {
        m
    } else {
        spec_apply_ops(spec_apply_op(m, ops[0]), ops.skip(1))
    }
}

/// The keys a scan of the entry list yields: walking the entries in order,
/// the keys in the namespace at or after the starting key, at most `limit`
/// of them.
pub open spec fn spec_scan(s: Seq<KvEntry>, ns: Seq<u8>, from: Seq<u8>, limit: nat) -> Seq<
    Seq<u8>,
>
    decreases s.len(),
{
    if s.len() == 0 || limit == 0 {
        Seq::empty()
    } else if s[0].namespace@ == ns && bytes_le(from, s[0].key@) {
        seq![s[0].key@] + spec_scan(s.skip(1), ns, from, (limit - 1) as nat)
    } else {
        spec_scan(s.skip(1), ns, from, limit)
    }
}

/// Copies a byte vector element by element.
fn copy_bytes(v: &Vec<u8>) -> (r: Vec<u8>)
    ensures
        r@ == v@,
{
    let mut out: Vec<u8> = Vec::new();
    let mut i: usize = 0;
    while i < v.len()
        invariant
            i <= v@.len(),
            out@ == v@.take(i as int),
        decreases v@.len() - i,
    {
        out.push(v[i]);
        proof {
            assert(out@ =~= v@.take(i + 1));
        }
        i = i + 1;
    }
    proof {
        assert(out@ =~= v@);
    }
    out
}

/// Whether two byte vectors hold the same bytes.
fn bytes_eq(a: &Vec<u8>, b: &Vec<u8>) -> (r: bool)
    ensures
        r <==> a@ == b@,
{
    if a.len() != b.len() {
        return false;
    }
    let mut i: usize = 0;
    while i < a.len()
        invariant
            a@.len() == b@.len(),
            i <= a@.len(),
            forall|j: int| 0 <= j < i ==> a@[j] == b@[j],
        decreases a@.len() - i,
    {
        if a[i] != b[i] {
            return false;
        }
        i = i + 1;
    }
    proof {
        assert(a@ =~= b@);
    }
    true
}

/// Decides the byte-wise lexicographic order `bytes_le`.
fn bytes_le_exec(a: &Vec<u8>, b: &Vec<u8>) -> (r: bool)
    ensures
        r == bytes_le(a@, b@),
{
    let n: usize = if a.len() < b.len() {
        a.len()
    } else {
        b.len()
    };
    let mut i: usize = 0;
    proof {
        assert(a@.skip(0) =~= a@);
        assert(b@.skip(0) =~= b@);
    }
    while i < n
        invariant
            n <= a@.len(),
            n <= b@.len(),
            i <= n,
            bytes_le(a@, b@) == bytes_le(a@.skip(i as int), b@.skip(i as int)),
        decreases n - i,
    {
        proof {
            assert(a@.skip(i as int)[0] == a@[i as int]);
            assert(b@.skip(i as int)[0] == b@[i as int]);
            assert(a@.skip(i as int).skip(1) =~= a@.skip(i + 1));
            assert(b@.skip(i as int).skip(1) =~= b@.skip(i + 1));
        }
        if a[i] < b[i] {
            return true;
        }
        if a[i] > b[i] {
            return false;
        }
        i = i + 1;
    }
    proof {
        if a@.len() <= b@.len() {
            assert(a@.skip(i as int).len() == 0);
        } else {
            assert(b@.skip(i as int).len() == 0);
            assert(a@.skip(i as int).len() > 0);
        }
    }
    a.len() <= b.len()
}

/// The storage capability: committed entries plus the buffer of an open
/// transaction, if one is open.
pub struct KvStore {
    entries: Vec<KvEntry>,
    txn_open: bool,
    txn_buf: Vec<KvOp>,
}

impl KvStore {
    /// The committed contents: (namespace, key) to value.
    pub closed spec fn view_map(self) -> Map<KvKey, Seq<u8>> {
        entries_map(self.entries@)
    }

    /// The committed entries, in scan order.
    pub closed spec fn entry_seq(self) -> Seq<KvEntry> {
        self.entries@
    }

    /// The buffered writes of the open transaction, or `None`.
    pub closed spec fn txn_ops(self) -> Option<Seq<KvOp>> {
        if self.txn_open {
            Some(self.txn_buf@)
        } else {
            None
        }
    }

    /// Well-formedness: each (namespace, key) is bound by at most one entry,
    /// and a closed transaction holds no buffered writes.
    pub closed spec fn wf(self) -> bool {
        &&& unique_keys(self.entries@)
        &&& (!self.txn_open ==> self.txn_buf@.len() == 0)
    }

    /// An empty store with no open transaction.
    pub fn new() -> (r: KvStore)
        ensures
            r.wf(),
            r.view_map() == Map::<KvKey, Seq<u8>>::empty(),
            r.entry_seq() == Seq::<KvEntry>::empty(),
            r.txn_ops() is None,
    {
        KvStore { entries: Vec::new(), txn_open: false, txn_buf: Vec::new() }
    }

    /// Reads the committed value under (namespace, key): exactly the binding
    /// the store's map holds, `None` if the pair is unbound.
    pub fn get(&self, namespace: &Vec<u8>, key: &Vec<u8>) -> (r: Option<Vec<u8>>)
        requires
            self.wf(),
        ensures
            match r {
                Some(v) => self.view_map().contains_pair((namespace@, key@), v@),
                None => !self.view_map().dom().contains((namespace@, key@)),
            },
    {
        proof {
            lemma_entries_map_props(self.entries@);
        }
        let mut i: usize = 0;
        while i < self.entries.len()
            invariant
                self.wf(),
                i <= self.entries@.len(),
                forall|j: int|
                    0 <= j < i ==> !entry_matches(#[trigger] self.entries@[j], namespace@, key@),
            decreases self.entries@.len() - i,
        {
            if bytes_eq(&self.entries[i].namespace, namespace) && bytes_eq(
                &self.entries[i].key,
                key,
            ) {
                proof {
                    lemma_entries_map_props(self.entries@);
                }
                return Some(copy_bytes(&self.entries[i].value));
            }
            i = i + 1;
        }
        proof {
            lemma_entries_map_props(self.entries@);
            if self.view_map().dom().contains((namespace@, key@)) {
                let j = choose|j: int|
                    0 <= j < self.entries@.len() && entry_matches(
                        self.entries@[j],
                        namespace@,
                        key@,
                    );
            }
        }
        None
    }

    /// Binds (namespace, key) to the value. Outside a transaction the
    /// binding is committed at once; inside one it is buffered until commit.
    pub fn put(&mut self, namespace: Vec<u8>, key: Vec<u8>, value: Vec<u8>)
        requires
            old(self).wf(),
        ensures
            final(self).wf(),
            match old(self).txn_ops() {
                None => {
                    &&& final(self).view_map() == old(self).view_map().insert(
                        (namespace@, key@),
                        value@,
                    )
                    &&& final(self).txn_ops() is None
                },
                Some(ops) => {
                    &&& final(self).view_map() == old(self).view_map()
                    &&& final(self).txn_ops() == Some(ops.push((KvOp::Put { namespace, key, value })))
                    &&& final(self).entry_seq() == old(self).entry_seq()
                },
            },
    {
        if self.txn_open {
            self.txn_buf.push(KvOp::Put { namespace, key, value });
        } else {
            delete_entries(&mut self.entries, &namespace, &key);
            let ghost pre = self.entries@;
            self.entries.push(KvEntry { namespace, key, value });
            proof {
                assert(self.entries@.drop_last() =~= pre);
                assert(unique_keys(self.entries@)) by {
                    assert(forall|i: int, j: int|
                        0 <= i < j < self.entries@.len() && j < pre.len()
                            ==> !entry_matches(
                            #[trigger] self.entries@[i],
                            (#[trigger] self.entries@[j]).namespace@,
                            self.entries@[j].key@,
                        ));
                }
                assert(old(self).view_map().remove((namespace@, key@)).insert(
                    (namespace@, key@),
                    value@,
                ) =~= old(self).view_map().insert((namespace@, key@), value@));
            }
        }
    }

    /// Unbinds (namespace, key). Outside a transaction the removal is
    /// committed at once; inside one it is buffered until commit.
    pub fn delete(&mut self, namespace: Vec<u8>, key: Vec<u8>)
        requires
            old(self).wf(),
        ensures
            final(self).wf(),
            match old(self).txn_ops() {
                None => {
                    &&& final(self).view_map() == old(self).view_map().remove((namespace@, key@))
                    &&& final(self).txn_ops() is None
                },
                Some(ops) => {
                    &&& final(self).view_map() == old(self).view_map()
                    &&& final(self).txn_ops() == Some(ops.push((KvOp::Delete { namespace, key })))
                    &&& final(self).entry_seq() == old(self).entry_seq()
                },
            },
    {
        if self.txn_open {
            self.txn_buf.push(KvOp::Delete { namespace, key });
        } else {
            delete_entries(&mut self.entries, &namespace, &key);
        }
    }

    /// The keys in the namespace at or after `from`, in entry order, at most
    /// `limit` of them: exactly `spec_scan` of the committed entries, so two
    /// scans of an unchanged store return the same keys in the same order.
    pub fn scan(&self, namespace: &Vec<u8>, from: &Vec<u8>, limit: u32) -> (r: Vec<Vec<u8>>)
        requires
            self.wf(),
        ensures
            r@.map_values(|k: Vec<u8>| k@) == spec_scan(
                self.entry_seq(),
                namespace@,
                from@,
                limit as nat,
            ),
            r@.len() <= limit,
    {
        let mut out: Vec<Vec<u8>> = Vec::new();
        let mut i: usize = 0;
        proof {
            assert(self.entries@.skip(0) =~= self.entries@);
            assert(out@.map_values(|k: Vec<u8>| k@) =~= Seq::<Seq<u8>>::empty());
            assert(Seq::<Seq<u8>>::empty() + spec_scan(
                self.entries@,
                namespace@,
                from@,
                limit as nat,
            ) =~= spec_scan(self.entries@, namespace@, from@, limit as nat));
        }
        while i < self.entries.len() && out.len() < limit as usize
            invariant
                i <= self.entries@.len(),
                out@.len() <= limit,
                spec_scan(self.entries@, namespace@, from@, limit as nat) == out@.map_values(
                    |k: Vec<u8>| k@,
                ) + spec_scan(
                    self.entries@.skip(i as int),
                    namespace@,
                    from@,
                    (limit - out@.len()) as nat,
                ),
            decreases self.entries@.len() - i,
        {
            let ghost rest = self.entries@.skip(i as int);
            proof {
                assert(rest[0] == self.entries@[i as int]);
                assert(rest.skip(1) =~= self.entries@.skip(i + 1));
            }
            let e = &self.entries[i];
            if bytes_eq(&e.namespace, namespace) && bytes_le_exec(from, &e.key) {
                let ghost out0 = out@;
                out.push(copy_bytes(&e.key));
                proof {
                    assert(out@.map_values(|k: Vec<u8>| k@) =~= out0.map_values(|k: Vec<u8>| k@)
                        + seq![self.entries@[i as int].key@]);
                    assert(out0.map_values(|k: Vec<u8>| k@) + (seq![self.entries@[i as int].key@]
                        + spec_scan(
                        self.entries@.skip(i + 1),
                        namespace@,
                        from@,
                        (limit - out@.len()) as nat,
                    )) =~= out@.map_values(|k: Vec<u8>| k@) + spec_scan(
                        self.entries@.skip(i + 1),
                        namespace@,
                        from@,
                        (limit - out@.len()) as nat,
                    ));
                }
            }
            i = i + 1;
        }
        proof {
            if out@.len() == limit {
                assert(spec_scan(
                    self.entries@.skip(i as int),
                    namespace@,
                    from@,
                    (limit - out@.len()) as nat,
                ) =~= Seq::<Seq<u8>>::empty());
            } else {
                assert(i == self.entries@.len());
                assert(self.entries@.skip(i as int).len() == 0);
            }
            assert(out@.map_values(|k: Vec<u8>| k@) + Seq::<Seq<u8>>::empty() =~= out@.map_values(
                |k: Vec<u8>| k@,
            ));
        }
        out
    }

    /// Opens a transaction. Opening while one is already open is a protocol
    /// violation and changes nothing.
    pub fn begin_transaction(&mut self) -> (r: Result<(), EngineError>)
        requires
            old(self).wf(),
        ensures
            final(self).wf(),
            final(self).view_map() == old(self).view_map(),
            final(self).entry_seq() == old(self).entry_seq(),
            r is Ok <==> old(self).txn_ops() is None,
            r is Ok ==> final(self).txn_ops() == Some(Seq::<KvOp>::empty()),
            r is Err ==> r == Err::<(), EngineError>(EngineError::ProtocolViolation)
                && final(self).txn_ops() == old(self).txn_ops(),
    {
        if self.txn_open {
            Err(EngineError::ProtocolViolation)
        } else {
            self.txn_open = true;
            Ok(())
        }
    }

    /// Discards the open transaction: none of its buffered writes takes
    /// effect. Rolling back with no open transaction is a protocol
    /// violation.
    pub fn rollback_transaction(&mut self) -> (r: Result<(), EngineError>)
        requires
            old(self).wf(),
        ensures
            final(self).wf(),
            final(self).view_map() == old(self).view_map(),
            final(self).entry_seq() == old(self).entry_seq(),
            final(self).txn_ops() is None,
            r is Ok <==> old(self).txn_ops() is Some,
            r is Err ==> r == Err::<(), EngineError>(EngineError::ProtocolViolation),
    {
        if self.txn_open {
            self.txn_open = false;
            self.txn_buf = Vec::new();
            Ok(())
        } else {
            Err(EngineError::ProtocolViolation)
        }
    }

    /// Applies every buffered write of the open transaction, in order, all
    /// or nothing. Committing with no open transaction is a protocol
    /// violation and changes nothing.
    pub fn commit_transaction(&mut self) -> (r: Result<(), EngineError>)
        requires
            old(self).wf(),
        ensures
            final(self).wf(),
            final(self).txn_ops() is None || r is Err,
            r is Ok <==> old(self).txn_ops() is Some,
            r is Ok ==> final(self).view_map() == spec_apply_ops(
                old(self).view_map(),
                old(self).txn_ops()->0,
            ),
            r is Err ==> r == Err::<(), EngineError>(EngineError::ProtocolViolation)
                && final(self).view_map() == old(self).view_map()
                && final(self).txn_ops() == old(self).txn_ops(),
    {
        if !self.txn_open {
            return Err(EngineError::ProtocolViolation);
        }
        let ghost ops = self.txn_buf@;
        let ghost view0 = entries_map(self.entries@);
        let mut i: usize = 0;
        proof {
            assert(ops.skip(0) =~= ops);
        }
        while i < self.txn_buf.len()
            invariant
                unique_keys(self.entries@),
                self.txn_buf@ == ops,
                i <= ops.len(),
                spec_apply_ops(view0, ops) == spec_apply_ops(
                    entries_map(self.entries@),
                    ops.skip(i as int),
                ),
            decreases ops.len() - i,
        {
            proof {
                assert(ops.skip(i as int)[0] == ops[i as int]);
                assert(ops.skip(i as int).skip(1) =~= ops.skip(i + 1));
            }
            let ghost pre = self.entries@;
            match &self.txn_buf[i] {
                KvOp::Put { namespace, key, value } => {
                    let ns = copy_bytes(namespace);
                    let k = copy_bytes(key);
                    let v = copy_bytes(value);
                    delete_entries(&mut self.entries, &ns, &k);
                    let ghost mid = self.entries@;
                    self.entries.push(KvEntry { namespace: ns, key: k, value: v });
                    proof {
                        assert(self.entries@.drop_last() =~= mid);
                        assert(unique_keys(self.entries@));
                        assert(entries_map(self.entries@) =~= spec_apply_op(
                            entries_map(pre),
                            ops[i as int],
                        ));
                    }
                },
                KvOp::Delete { namespace, key } => {
                    let ns = copy_bytes(namespace);
                    let k = copy_bytes(key);
                    delete_entries(&mut self.entries, &ns, &k);
                    proof {
                        assert(entries_map(self.entries@) == spec_apply_op(
                            entries_map(pre),
                            ops[i as int],
                        ));
                    }
                },
            }
            i = i + 1;
        }
        proof {
            assert(ops.skip(i as int).len() == 0);
        }
        self.txn_open = false;
        self.txn_buf = Vec::new();
        Ok(())
    }
}

/// Removes the binding for (namespace, key) from the entry list, if any.
fn delete_entries(entries: &mut Vec<KvEntry>, namespace: &Vec<u8>, key: &Vec<u8>)
    requires
        unique_keys(old(entries)@),
    ensures
        unique_keys(final(entries)@),
        entries_map(final(entries)@) == entries_map(old(entries)@).remove((namespace@, key@)),
        forall|j: int|
            0 <= j < final(entries)@.len() ==> !entry_matches(
                #[trigger] final(entries)@[j],
                namespace@,
                key@,
            ),
{
    let mut i: usize = 0;
    while i < entries.len()
        invariant
            entries@ == old(entries)@,
            unique_keys(entries@),
            i <= entries@.len(),
            forall|j: int| 0 <= j < i ==> !entry_matches(#[trigger] entries@[j], namespace@, key@),
        decreases entries@.len() - i,
    {
        if bytes_eq(&entries[i].namespace, namespace) && bytes_eq(&entries[i].key, key) {
            let ghost pre = entries@;
            let ghost idx = i as int;
            entries.remove(i);
            proof {
                lemma_entries_map_remove(pre, idx);
                assert(entries@ =~= pre.remove(idx));
                lemma_unique_keys_remove(pre, idx);
                assert forall|j: int|
                    0 <= j < entries@.len() implies !entry_matches(
                    #[trigger] entries@[j],
                    namespace@,
                    key@,
                ) by {
                    pre.remove_ensures(idx);
                    if j < idx {
                        assert(entries@[j] == pre[j]);
                        if entry_matches(pre[j], namespace@, key@) {
                            assert(entry_matches(pre[j], pre[idx].namespace@, pre[idx].key@));
                        }
                    } else {
                        assert(entries@[j] == pre[j + 1]);
                        if entry_matches(pre[j + 1], namespace@, key@) {
                            assert(entry_matches(pre[idx], pre[j + 1].namespace@, pre[j + 1].key@));
                        }
                    }
                }
            }
            return ;
        }
        i = i + 1;
    }
    proof {
        lemma_entries_map_props(entries@);
        if entries_map(entries@).dom().contains((namespace@, key@)) {
            let j = choose|j: int|
                0 <= j < entries@.len() && entry_matches(entries@[j], namespace@, key@);
        }
        assert(entries_map(entries@) =~= entries_map(entries@).remove((namespace@, key@)));
    }
}

/// The namespace identifier a script-visible name is bound to: the first
/// binding that carries the name, or `None` if no binding does.
pub open spec fn spec_resolve_namespace(bindings: Seq<KvNamespaceBinding>, name: Seq<u8>) -> Option<
    Seq<u8>,
>
    decreases bindings.len(),
{
    if bindings.len() == 0 {
        None
    } else if bindings[0].name@ == name {
        Some(bindings[0].id@)
    } else {
        spec_resolve_namespace(bindings.skip(1), name)
    }
}

/// Resolves the target namespace of a key-value host call from the
/// instance's configured bindings, exactly as `spec_resolve_namespace` says.
pub fn resolve_namespace(bindings: &Vec<KvNamespaceBinding>, name: &Vec<u8>) -> (r: Option<Vec<u8>>)
    ensures
        (match r {
            Some(id) => spec_resolve_namespace(bindings@, name@) == Some(id@),
            None => spec_resolve_namespace(bindings@, name@) is None,
        }),
{
    let mut i: usize = 0;
    proof {
        assert(bindings@.skip(0) =~= bindings@);
    }
    while i < bindings.len()
        invariant
            i <= bindings@.len(),
            spec_resolve_namespace(bindings@, name@) == spec_resolve_namespace(
                bindings@.skip(i as int),
                name@,
            ),
        decreases bindings@.len() - i,
    {
        proof {
            assert(bindings@.skip(i as int)[0] == bindings@[i as int]);
            assert(bindings@.skip(i as int).skip(1) =~= bindings@.skip(i + 1));
        }
        if bytes_eq(&bindings[i].name, name) {
            return Some(copy_bytes(&bindings[i].id));
        }
        i = i + 1;
    }
    None
}

/// Removing an entry keeps the remaining keys unique.
proof fn lemma_unique_keys_remove(s: Seq<KvEntry>, i: int)
    requires
        unique_keys(s),
        0 <= i < s.len(),
    ensures
        unique_keys(s.remove(i)),
{
    let t = s.remove(i);
    s.remove_ensures(i);
    assert forall|a: int, b: int|
        0 <= a < b < t.len() implies !entry_matches(
        #[trigger] t[a],
        (#[trigger] t[b]).namespace@,
        t[b].key@,
    ) by {
        let a0 = if a < i {
            a
        } else {
            a + 1
        };
        let b0 = if b < i {
            b
        } else {
            b + 1
        };
        assert(t[a] == s[a0]);
        assert(t[b] == s[b0]);
        assert(0 <= a0 < b0 < s.len());
    }
}

/// The denoted map's domain is exactly the (namespace, key) pairs some entry
/// binds, and each entry's binding is present in the denoted map.
proof fn lemma_entries_map_props(s: Seq<KvEntry>)
    requires
        unique_keys(s),
    ensures
        forall|ns: Seq<u8>, key: Seq<u8>|
            #[trigger] entries_map(s).dom().contains((ns, key)) ==> exists|i: int|
                0 <= i < s.len() && entry_matches(s[i], ns, key),
        forall|i: int|
            0 <= i < s.len() ==> #[trigger] entries_map(s).contains_pair(
                (s[i].namespace@, s[i].key@),
                s[i].value@,
            ),
    decreases s.len(),
{
    if s.len() == 0 {
    } else {
        let t = s.drop_last();
        let last = s.last();
        assert(unique_keys(t)) by {
            assert(forall|i: int, j: int|
                0 <= i < j < t.len() ==> !entry_matches(
                    #[trigger] t[i],
                    (#[trigger] t[j]).namespace@,
                    t[j].key@,
                ));
        }
        lemma_entries_map_props(t);
        assert forall|ns: Seq<u8>, key: Seq<u8>|
            #[trigger] entries_map(s).dom().contains((ns, key)) implies exists|i: int|
            0 <= i < s.len() && entry_matches(s[i], ns, key) by {
            if (ns, key) == (last.namespace@, last.key@) {
                assert(entry_matches(s[s.len() - 1], ns, key));
            } else {
                assert(entries_map(t).dom().contains((ns, key)));
                let i = choose|i: int| 0 <= i < t.len() && entry_matches(t[i], ns, key);
                assert(entry_matches(s[i], ns, key));
            }
        }
        assert forall|i: int|
            0 <= i < s.len() implies #[trigger] entries_map(s).contains_pair(
            (s[i].namespace@, s[i].key@),
            s[i].value@,
        ) by {
            if i == s.len() - 1 {
            } else {
                assert(entries_map(t).contains_pair((t[i].namespace@, t[i].key@), t[i].value@));
                assert(!entry_matches(s[i], last.namespace@, last.key@));
            }
        }
    }
}

/// Removing the entry at index `i` removes exactly its binding from the
/// denoted map.
proof fn lemma_entries_map_remove(s: Seq<KvEntry>, i: int)
    requires
        unique_keys(s),
        0 <= i < s.len(),
    ensures
        entries_map(s.remove(i)) == entries_map(s).remove((s[i].namespace@, s[i].key@)),
    decreases s.len(),
{
    let k = (s[i].namespace@, s[i].key@);
    let t = s.drop_last();
    let last = s.last();
    assert(unique_keys(t)) by {
        assert(forall|a: int, b: int|
            0 <= a < b < t.len() ==> !entry_matches(
                #[trigger] t[a],
                (#[trigger] t[b]).namespace@,
                t[b].key@,
            ));
    }
    if i == s.len() - 1 {
        assert(s.remove(i) =~= t);
        lemma_entries_map_props(t);
        if entries_map(t).dom().contains(k) {
            let j = choose|j: int| 0 <= j < t.len() && entry_matches(t[j], k.0, k.1);
            assert(entry_matches(s[j], s[i].namespace@, s[i].key@));
        }
        assert(entries_map(t) =~= entries_map(t).insert(k, last.value@).remove(k));
    } else {
        lemma_entries_map_remove(t, i);
        assert(s.remove(i).drop_last() =~= t.remove(i));
        assert(s.remove(i).len() == s.len() - 1);
        assert(s.remove(i).last() == last) by {
            s.remove_ensures(i);
            assert(s.remove(i)[s.len() - 2] == s[s.len() - 1]);
        }
        assert(t[i] == s[i]);
        assert(!entry_matches(s[i], last.namespace@, last.key@));
        assert(entries_map(s.remove(i)) == entries_map(t.remove(i)).insert(
            (last.namespace@, last.key@),
            last.value@,
        ));
        assert(entries_map(t).remove(k).insert((last.namespace@, last.key@), last.value@)
            =~= entries_map(t).insert((last.namespace@, last.key@), last.value@).remove(k));
    }
}

/// Round trip: a value written under (namespace, key) is what a read of the
/// same (namespace, key) retrieves, and it stays bound - unaffected by
/// writes and removals under any other (namespace, key) - until it is
/// deleted, after which the pair is unbound.
pub proof fn lemma_kv_round_trip(
    m: Map<KvKey, Seq<u8>>,
    ns: Seq<u8>,
    key: Seq<u8>,
    value: Seq<u8>,
    other: KvKey,
    other_value: Seq<u8>,
)
    requires
        other != (ns, key),
    ensures
        m.insert((ns, key), value).contains_pair((ns, key), value),
        m.insert((ns, key), value).insert(other, other_value).contains_pair((ns, key), value),
        m.insert((ns, key), value).remove(other).contains_pair((ns, key), value),
        !m.remove((ns, key)).dom().contains((ns, key)),
{
}

/// The (namespace, key) a buffered write touches.
pub open spec fn op_key(op: KvOp) -> KvKey {
    match op {
        KvOp::Put { namespace, key, .. } => (namespace@, key@),
        KvOp::Delete { namespace, key } => (namespace@, key@),
    }
}

/// A binding that none of a transaction's buffered writes touches survives
/// the commit unchanged: it stays bound to the same value, and an unbound
/// pair stays unbound.
pub proof fn lemma_untouched_binding_survives(m: Map<KvKey, Seq<u8>>, ops: Seq<KvOp>, k: KvKey)
    requires
        forall|i: int| 0 <= i < ops.len() ==> op_key(#[trigger] ops[i]) != k,
    ensures
        spec_apply_ops(m, ops).dom().contains(k) == m.dom().contains(k),
        m.dom().contains(k) ==> spec_apply_ops(m, ops)[k] == m[k],
    decreases ops.len(),
{
    if ops.len() == 0 {
    } else {
        let m1 = spec_apply_op(m, ops[0]);
        assert forall|i: int| 0 <= i < ops.skip(1).len() implies op_key(
            #[trigger] ops.skip(1)[i],
        ) != k by {
            assert(ops.skip(1)[i] == ops[i + 1]);
            assert(op_key(ops[i + 1]) != k);
        }
        lemma_untouched_binding_survives(m1, ops.skip(1), k);
        assert(op_key(ops[0]) != k);
    }
}

/// A scan never returns more keys than its limit.
pub proof fn lemma_scan_bounded(s: Seq<KvEntry>, ns: Seq<u8>, from: Seq<u8>, limit: nat)
    ensures
        spec_scan(s, ns, from, limit).len() <= limit,
    decreases s.len(),
{
    if s.len() == 0 || limit == 0 {
    } else if s[0].namespace@ == ns && bytes_le(from, s[0].key@) {
        lemma_scan_bounded(s.skip(1), ns, from, (limit - 1) as nat);
    } else {
        lemma_scan_bounded(s.skip(1), ns, from, limit);
    }
}

} // verus!
