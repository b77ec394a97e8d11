//! Core data model: worker handles, per-instance configuration, request and
//! response objects, and the error taxonomy of the runtime.

use vstd::prelude::*;

verus! {

broadcast use vstd::string::to_string_from_display_ensures_for_str;

/// Opaque identifier of a live worker instance.
///
/// A handle is issued exactly once by a successful spawn and is never reused:
/// the runtime issues identifiers from a strictly increasing counter.
#[derive(Clone, Copy, Debug, PartialEq, Eq, Hash, Structural)]
pub struct WorkerHandle {
    pub id: u64,
}

/// Resource ceilings applied to one instance's execution context.
#[derive(Clone, Copy, Debug, PartialEq, Eq, Structural)]
pub struct ExecutorConfiguration {
    /// Maximum sandbox heap size, in megabytes.
    pub max_ab_memory_mb: u32,
    /// Maximum wall-clock time of one execution slice, in milliseconds.
    pub max_time_ms: u64,
    /// Maximum number of concurrent host I/O operations.
    pub max_io_concurrency: u32,
    /// Maximum number of host I/O operations per request.
    pub max_io_per_request: u32,
}

/// Binding of a script-visible key-value namespace name to a namespace id.
#[derive(Clone, Debug)]
pub struct KvNamespaceBinding {
    /// The name scripts use, as UTF-8 bytes.
    pub name: Vec<u8>,
    /// The identifier the storage backend is keyed by.
    pub id: Vec<u8>,
}

/// Immutable per-instance policy, copied into the instance at spawn time.
#[derive(Clone, Debug)]
pub struct WorkerConfiguration {
    pub executor: ExecutorConfiguration,
    /// Address of the fetch-capable service the sandbox may call out to.
    pub fetch_service: String,
    /// Environment bindings visible to the script.
    pub env: Vec<(String, String)>,
    /// Key-value namespace bindings visible to the script.
    pub kv_namespaces: Vec<KvNamespaceBinding>,
}

/// A request dispatched into a worker instance.
#[derive(Clone, Debug)]
pub struct RequestObject {
    pub method: String,
    pub url: String,
    pub headers: Vec<(String, String)>,
    pub body: Vec<u8>,
}

impl Default for RequestObject {
    /// The empty request: a GET with no url, headers or body.
    fn default() -> (r: Self)
        ensures
            r.method@ == "GET"@,
            r.url@ == Seq::<char>::empty(),
            r.headers@ == Seq::<(String, String)>::empty(),
            r.body@ == Seq::<u8>::empty(),
    {
        proof {
            reveal_strlit("");
        }
        RequestObject {
            method: "GET".to_string(),
            url: "".to_string(),
            headers: Vec::new(),
            body: Vec::new(),
        }
    }
}

/// A response produced by a worker instance for one dispatched request.
#[derive(Clone, Debug)]
pub struct ResponseObject {
    pub status: u16,
    pub headers: Vec<(String, String)>,
    pub body: Vec<u8>,
}

/// Why a runtime operation failed.
///
/// Instance-fatal errors (`ScriptThrowsException`, `TimeLimitExceeded`,
/// `MemoryLimitExceeded`, `ProtocolViolation`) terminate only the offending
/// instance; `NoSuchWorker` is recoverable and caller-visible; `CompileError`
/// and `InitError` are fatal to a spawn attempt and create no instance.
#[derive(Clone, Copy, Debug, PartialEq, Eq, Structural)]
pub enum EngineError {
    /// The script could not be parsed or compiled.
    CompileError,
    /// The sandbox could not be constructed.
    InitError,
    /// The operation referenced a handle that is not registered.
    NoSuchWorker,
    /// The script raised an uncaught exception.
    ScriptThrowsException,
    /// The instance exceeded its configured time ceiling.
    TimeLimitExceeded,
    /// The instance exceeded its configured memory ceiling.
    MemoryLimitExceeded,
    /// The sandbox emitted a malformed or out-of-contract host call.
    ProtocolViolation,
}

} // verus!
