//! The plugin protocol: JSON-RPC 2.0 messages, error codes, and the session
//! that decides, request by request, what the server does. The server loop
//! (reading lines, running handlers, writing responses) drives a `Session`:
//! `begin` says what to do with a request, `finish` turns a handler's outcome
//! into the response.

use vstd::prelude::*;

verus! {

pub const PARSE_ERROR: i32 = -32700;
pub const INVALID_REQUEST: i32 = -32600;
pub const METHOD_NOT_FOUND: i32 = -32601;
pub const INVALID_PARAMS: i32 = -32602;
pub const INTERNAL_ERROR: i32 = -32603;
/// A request that was cancelled, or that timed out.
pub const REQUEST_CANCELLED: i32 = -32800;

/// Version of the wire protocol that `initialize` advertises.
pub const PROTOCOL_VERSION: &'static str = "1.0.0";
/// Version of the plugin interface that `initialize` advertises.
pub const PLUGIN_VERSION: &'static str = "0.1.0";

pub const INITIALIZE: &'static str = "initialize";
pub const SHUTDOWN: &'static str = "shutdown";
pub const CANCEL: &'static str = "$/cancel";
pub const PING: &'static str = "$/ping";

/// Id of a request: a number or a string.
#[derive(Clone, Debug, PartialEq, Eq, Hash)]
pub enum RequestId {
    Number(i64),
    Str(String),
}

/// A request id as plain values.
pub enum RequestIdView {
    Number(i64),
    Str(Seq<char>),
}

impl View for RequestId {
    type V = RequestIdView;

    open spec fn view(&self) -> RequestIdView {
        match self {
            RequestId::Number(n) => RequestIdView::Number(*n),
            RequestId::Str(s) => RequestIdView::Str(s@),
        }
    }
}

impl RequestId {
    /// A copy of the id.
    pub fn copy(&self) -> (r: RequestId)
        ensures
            r@ == self@,
    {
        match self {
            RequestId::Number(n) => RequestId::Number(*n),
            RequestId::Str(s) => RequestId::Str(s.clone()),
        }
    }
}

pub open spec fn ids_view(ids: Seq<RequestId>) -> Seq<RequestIdView> {
    ids.map_values(|i: RequestId| i@)
}

/// An error response's code and message.
#[derive(Clone, Debug, PartialEq, Eq)]
pub struct RpcError {
    pub code: i32,
    pub message: String,
}

impl RpcError {
    pub fn new(code: i32, message: &str) -> (r: RpcError)
        ensures
            r.code == code,
            r.message@ == message@,
    {
        RpcError { code, message: String::from_str(message) }
    }

    pub fn parse_error(message: &str) -> (r: RpcError)
        ensures
            r.code == PARSE_ERROR,
            r.message@ == message@,
    {
        RpcError::new(PARSE_ERROR, message)
    }

    pub fn invalid_request(message: &str) -> (r: RpcError)
        ensures
            r.code == INVALID_REQUEST,
            r.message@ == message@,
    {
        RpcError::new(INVALID_REQUEST, message)
    }

    pub fn invalid_params(message: &str) -> (r: RpcError)
        ensures
            r.code == INVALID_PARAMS,
            r.message@ == message@,
    {
        RpcError::new(INVALID_PARAMS, message)
    }

    pub fn internal_error(message: &str) -> (r: RpcError)
        ensures
            r.code == INTERNAL_ERROR,
            r.message@ == message@,
    {
        RpcError::new(INTERNAL_ERROR, message)
    }

    /// `Method not found: <method>`.
    pub fn method_not_found(method: &str) -> (r: RpcError)
        ensures
            r.code == METHOD_NOT_FOUND,
            r.message@ == "Method not found: "@ + method@,
    {
        let mut m = String::from_str("Method not found: ");
        m.append(method);
        RpcError { code: METHOD_NOT_FOUND, message: m }
    }

    /// What a handler returns after it saw that it was cancelled.
    pub fn cancelled() -> (r: RpcError)
        ensures
            r.code == REQUEST_CANCELLED,
            r.message@ == "Request cancelled"@,
    {
        RpcError::new(REQUEST_CANCELLED, "Request cancelled")
    }

    /// The error of a handler that ran past its timeout; `duration` is the
    /// timeout as text.
    pub fn timed_out(duration: &str) -> (r: RpcError)
        ensures
            r.code == REQUEST_CANCELLED,
            r.message@ == "Request timed out after "@ + duration@,
    {
        let mut m = String::from_str("Request timed out after ");
        m.append(duration);
        RpcError { code: REQUEST_CANCELLED, message: m }
    }
}

/// The `params` member of a request, as far as the session needs to know it.
#[derive(Clone, Debug, PartialEq, Eq)]
pub enum Params {
    Missing,
    /// Present but not of the expected form; the text says why.
    Invalid(String),
    Present,
}

/// A request as the session sees it; a notification has no id.
#[derive(Clone, Debug)]
pub struct Request {
    pub id: Option<RequestId>,
    pub method: String,
    pub params: Params,
}

/// Optional descriptive data of a plugin.
#[derive(Clone, Debug, Default)]
pub struct PluginMetadata {
    pub description: Option<String>,
    pub author: Option<String>,
    pub homepage: Option<String>,
    pub license: Option<String>,
    pub repository: Option<String>,
    pub supported_targets: Option<Vec<String>>,
    pub min_hodu_version: Option<String>,
}

impl PluginMetadata {
    pub open spec fn any_set(&self) -> bool {
        self.description is Some || self.author is Some || self.homepage is Some || self.license is Some
            || self.repository is Some || self.supported_targets is Some || self.min_hodu_version is Some
    }

    pub fn empty() -> (r: PluginMetadata)
        ensures
            !r.any_set(),
    {
        PluginMetadata {
            description: None,
            author: None,
            homepage: None,
            license: None,
            repository: None,
            supported_targets: None,
            min_hodu_version: None,
        }
    }
}

/// The result of `initialize`.
#[derive(Clone, Debug)]
pub struct InitializeResult {
    pub name: String,
    pub version: String,
    pub protocol_version: String,
    pub plugin_version: String,
    pub capabilities: Vec<String>,
    pub model_extensions: Option<Vec<String>>,
    pub tensor_extensions: Option<Vec<String>>,
    pub devices: Option<Vec<String>>,
    pub metadata: Option<PluginMetadata>,
}

/// What a response carries.
#[derive(Clone, Debug)]
pub enum Outcome {
    /// A result, as JSON text.
    Value(String),
    Initialized(InitializeResult),
    Error(RpcError),
}

#[derive(Clone, Debug)]
pub struct Response {
    pub id: RequestId,
    pub outcome: Outcome,
}

/// What the server loop does with a request.
#[derive(Clone, Debug)]
pub enum Step {
    /// Send this response.
    Reply(Response),
    /// Send nothing.
    Silent,
    /// Cancel the active request named by the parameters, if it is still
    /// running (see `is_active`); send nothing.
    Cancel,
    /// Run registered handler `handler` (with its timeout in milliseconds, if
    /// any), then hand its outcome to `finish`.
    Run { handler: usize, timeout_ms: Option<u64> },
    /// Run the cleanup callback once and exit with code 0.
    Shutdown,
}

/// The response that a request with id `id` gets: one with that id when
/// there is an id, none for a notification.
pub open spec fn answers(step: Step, id: Option<RequestId>) -> bool {
    match id {
        Some(i) => step matches Step::Reply(r) && r.id@ == i@,
        None => step is Silent,
    }
}

/// The reply of `$/ping`.
pub open spec fn is_pong(o: Outcome) -> bool {
    o matches Outcome::Value(v) && v@ == "{\"status\":\"ok\"}"@
}

pub open spec fn is_error_with(o: Outcome, code: i32) -> bool {
    o matches Outcome::Error(e) && e.code == code
}

/// Information about a finished request, for the post-request hook.
#[derive(Clone, Debug)]
pub struct ResponseInfo {
    pub method: String,
    pub id: Option<RequestId>,
    pub success: bool,
    pub error_code: Option<i32>,
    pub duration_ms: u64,
}

/// What the pre-request hook decided.
#[derive(Clone, Debug)]
pub enum PreRequestAction {
    Continue,
    Reject(RpcError),
}

/// A registered method: its name and its own timeout, if it has one.
#[derive(Clone, Debug)]
pub struct MethodEntry {
    pub name: String,
    pub timeout_ms: Option<u64>,
}

/// Methods that pass through the hooks: all but `initialize`, `shutdown`
/// and those starting with `$/`.
pub open spec fn runs_hooks_spec(m: Seq<char>) -> bool {
    !(m.len() >= 2 && m[0] == '$' && m[1] == '/') && m != "initialize"@ && m != "shutdown"@
}

/// Methods that advertise a capability: those under `format.` or `backend.`.
pub open spec fn is_capability(m: Seq<char>) -> bool {
    (m.len() >= 7 && m.subrange(0, 7) == "format."@) || (m.len() >= 8 && m.subrange(0, 8)
        == "backend."@)
}

pub fn starts_with(s: &str, p: &str) -> (r: bool)
    ensures
        r == (s@.len() >= p@.len() && s@.subrange(0, p@.len() as int) == p@),
{
    let n = p.unicode_len();
    if s.unicode_len() < n {
        return false;
    }
    crate::device::str_eq(s.substring_char(0, n), p)
}

/// Whether the hooks run for `method`.
pub fn runs_hooks(method: &str) -> (r: bool)
    ensures
        r == runs_hooks_spec(method@),
{
    let dollar = starts_with(method, "$/");
    proof {
        reveal_strlit("$/");
        if method@.len() >= 2 {
            let pre = method@.subrange(0, 2);
            assert(pre[0] == method@[0] && pre[1] == method@[1]);
            assert("$/"@[0] == '$' && "$/"@[1] == '/');
            if method@[0] == '$' && method@[1] == '/' {
                assert(pre =~= "$/"@);
            }
        }
    }
    !dollar && !crate::device::str_eq(method, "initialize") && !crate::device::str_eq(
        method,
        "shutdown",
    )
}

/// Both are absent, or both hold the same strings.
pub open spec fn same_strings(a: Option<Vec<String>>, b: Option<Vec<String>>) -> bool {
    (a is Some <==> b is Some) && (a is Some ==> a->Some_0@ == b->Some_0@)
}

pub open spec fn same_metadata(a: PluginMetadata, b: PluginMetadata) -> bool {
    &&& a.description == b.description
    &&& a.author == b.author
    &&& a.homepage == b.homepage
    &&& a.license == b.license
    &&& a.repository == b.repository
    &&& same_strings(a.supported_targets, b.supported_targets)
    &&& a.min_hodu_version == b.min_hodu_version
}

fn clone_strings(v: &Vec<String>) -> (r: Vec<String>)
    ensures
        r@ == v@,
{
    let mut out: Vec<String> = Vec::new();
    let mut i: usize = 0;
    while i < v.len()
        invariant
            i <= v@.len(),
            out@ == v@.subrange(0, i as int),
        decreases v@.len() - i,
    {
        out.push(v[i].clone());
        i = i + 1;
        assert(out@ =~= v@.subrange(0, i as int));
    }
    assert(v@.subrange(0, i as int) =~= v@);
    out
}

fn clone_opt_strings(v: &Option<Vec<String>>) -> (r: Option<Vec<String>>)
    ensures
        r is Some <==> v is Some,
        r is Some ==> r->Some_0@ == v->Some_0@,
{
    match v {
        Some(x) => Some(clone_strings(x)),
        None => None,
    }
}

fn clone_opt_string(v: &Option<String>) -> (r: Option<String>)
    ensures
        r == *v,
{
    match v {
        Some(x) => Some(x.clone()),
        None => None,
    }
}

/// The per-server state that the protocol's decisions depend on.
#[derive(Debug)]
pub struct Session {
    pub name: String,
    pub version: String,
    pub capabilities: Vec<String>,
    pub model_extensions: Option<Vec<String>>,
    pub tensor_extensions: Option<Vec<String>>,
    pub devices: Option<Vec<String>>,
    pub methods: Vec<MethodEntry>,
    pub initialized: bool,
    pub default_timeout_ms: Option<u64>,
    pub metadata: PluginMetadata,
    /// Ids of the requests whose handlers are running.
    pub active: Vec<RequestId>,
}

impl Session {
    /// Registered method names are distinct, and so are the ids of the
    /// running requests.
    pub open spec fn wf(&self) -> bool {
        &&& forall|a: int, b: int|
            #![trigger self.methods@[a], self.methods@[b]]
            0 <= a < b < self.methods@.len() ==> self.methods@[a].name@ != self.methods@[b].name@
        &&& forall|a: int, b: int|
            #![trigger self.active@[a], self.active@[b]]
            0 <= a < b < self.active@.len() ==> self.active@[a]@ != self.active@[b]@
    }

    pub fn new(name: &str, version: &str) -> (r: Session)
        ensures
            r.wf(),
            r.name@ == name@,
            r.version@ == version@,
            r.capabilities@.len() == 0,
            r.methods@.len() == 0,
            !r.initialized,
            r.default_timeout_ms is None,
            !r.metadata.any_set(),
            r.active@.len() == 0,
            r.model_extensions is None,
            r.tensor_extensions is None,
            r.devices is None,
    {
        Session {
            name: String::from_str(name),
            version: String::from_str(version),
            capabilities: Vec::new(),
            model_extensions: None,
            tensor_extensions: None,
            devices: None,
            methods: Vec::new(),
            initialized: false,
            default_timeout_ms: None,
            metadata: PluginMetadata::empty(),
            active: Vec::new(),
        }
    }

    /// Adds `name` to the advertised capabilities when it is a `format.` or
    /// `backend.` method that is not there yet.
    pub fn register_capability(&mut self, name: &str)
        ensures
            final(self).capabilities@.map_values(|c: String| c@) == if is_capability(name@)
                && !old(self).capabilities@.map_values(|c: String| c@).contains(name@) {
                old(self).capabilities@.map_values(|c: String| c@).push(name@)
            } else {
                old(self).capabilities@.map_values(|c: String| c@)
            },
            final(self).methods@ == old(self).methods@,
            final(self).initialized == old(self).initialized,
            final(self).active@ == old(self).active@,
    {
        let fmt = starts_with(name, "format.");
        let be = starts_with(name, "backend.");
        proof {
            reveal_strlit("format.");
            reveal_strlit("backend.");
        }
        if !(fmt || be) {
            return;
        }
        let ghost caps = self.capabilities@.map_values(|c: String| c@);
        let mut i: usize = 0;
        while i < self.capabilities.len()
            invariant
                i <= self.capabilities@.len(),
                caps == self.capabilities@.map_values(|c: String| c@),
                self.capabilities@ == old(self).capabilities@,
                self.methods@ == old(self).methods@,
                self.initialized == old(self).initialized,
                self.active@ == old(self).active@,
                forall|j: int| 0 <= j < i ==> caps[j] != name@,
            decreases self.capabilities@.len() - i,
        {
            if crate::device::str_eq(self.capabilities[i].as_str(), name) {
                assert(caps[i as int] == name@);
                return;
            }
            i = i + 1;
        }
        assert(!caps.contains(name@));
        self.capabilities.push(String::from_str(name));
        assert(self.capabilities@.map_values(|c: String| c@) =~= caps.push(name@));
    }

    /// Registers a handler for `name`, with its own timeout if given, replacing
    /// an earlier one of that name; returns its index.
    pub fn register_method(&mut self, name: &str, timeout_ms: Option<u64>) -> (r: usize)
        requires
            old(self).wf(),
        ensures
            final(self).wf(),
            r < final(self).methods@.len(),
            final(self).methods@[r as int].name@ == name@,
            final(self).methods@[r as int].timeout_ms == timeout_ms,
            final(self).initialized == old(self).initialized,
            final(self).active@ == old(self).active@,
            forall|j: int|
                0 <= j < old(self).methods@.len() && j != r ==> final(self).methods@[j]
                    == old(self).methods@[j],
            final(self).methods@.len() == old(self).methods@.len() || (final(self).methods@.len()
                == old(self).methods@.len() + 1 && r == old(self).methods@.len()),
    {
        self.register_capability(name);
        let n = self.methods.len();
        let mut i: usize = 0;
        while i < n
            invariant
                n == self.methods@.len(),
                i <= n,
                self.methods@ == old(self).methods@,
                self.initialized == old(self).initialized,
                self.active@ == old(self).active@,
                self.wf(),
                forall|j: int| 0 <= j < i ==> (#[trigger] self.methods@[j]).name@ != name@,
            decreases n - i,
        {
            if crate::device::str_eq(self.methods[i].name.as_str(), name) {
                self.methods.set(i, MethodEntry { name: String::from_str(name), timeout_ms });
                assert(forall|j: int| 0 <= j < n ==> (#[trigger] self.methods@[j]).name@
                    == old(self).methods@[j].name@);
                return i;
            }
            i = i + 1;
        }
        self.methods.push(MethodEntry { name: String::from_str(name), timeout_ms });
        assert(forall|j: int| 0 <= j < n ==> (#[trigger] self.methods@[j]) == old(self).methods@[j]);
        n
    }

    /// The registered handler for `method`, if there is one.
    pub fn find_method(&self, method: &str) -> (r: Option<usize>)
        ensures
            r is Some ==> r->Some_0 < self.methods@.len() && self.methods@[r->Some_0 as int].name@
                == method@,
            r is None ==> forall|j: int| 0 <= j < self.methods@.len() ==> (#[trigger] self.methods@[j]).name@
                != method@,
    {
        let mut i: usize = 0;
        while i < self.methods.len()
            invariant
                i <= self.methods@.len(),
                forall|j: int| 0 <= j < i ==> (#[trigger] self.methods@[j]).name@ != method@,
            decreases self.methods@.len() - i,
        {
            if crate::device::str_eq(self.methods[i].name.as_str(), method) {
                return Some(i);
            }
            i = i + 1;
        }
        None
    }

    /// Answers `initialize`: fails when already initialized or when the
    /// parameters are missing or malformed, and otherwise marks the session
    /// initialized and describes the plugin.
    pub fn handle_initialize(&mut self, params: &Params) -> (r: Result<InitializeResult, RpcError>)
        requires
            old(self).wf(),
        ensures
            final(self).wf(),
            old(self).initialized ==> r is Err && r->Err_0.code == INVALID_REQUEST
                && r->Err_0.message@ == "Already initialized"@,
            !old(self).initialized && *params == Params::Missing ==> r is Err && r->Err_0.code
                == INVALID_PARAMS && r->Err_0.message@ == "Missing params"@,
            !old(self).initialized && params is Invalid ==> r is Err && r->Err_0.code
                == INVALID_PARAMS && r->Err_0.message@ == params->Invalid_0@,
            r is Err ==> final(self).initialized == old(self).initialized,
            r is Ok <==> (!old(self).initialized && *params == Params::Present),
            r is Ok ==> {
                let res = r->Ok_0;
                &&& final(self).initialized
                &&& res.name@ == old(self).name@
                &&& res.version@ == old(self).version@
                &&& res.protocol_version@ == PROTOCOL_VERSION@
                &&& res.plugin_version@ == PLUGIN_VERSION@
                &&& res.capabilities@ == old(self).capabilities@
                &&& same_strings(res.model_extensions, old(self).model_extensions)
                &&& same_strings(res.tensor_extensions, old(self).tensor_extensions)
                &&& same_strings(res.devices, old(self).devices)
                &&& (res.metadata is Some <==> old(self).metadata.any_set())
                &&& res.metadata is Some ==> same_metadata(res.metadata->Some_0, old(self).metadata)
            },
            final(self).methods@ == old(self).methods@,
            final(self).capabilities@ == old(self).capabilities@,
            final(self).active@ == old(self).active@,
            final(self).metadata == old(self).metadata,
            final(self).name == old(self).name,
            final(self).version == old(self).version,
    {
        if self.initialized {
            return Err(RpcError::invalid_request("Already initialized"));
        }
        match params {
            Params::Missing => {
                return Err(RpcError::invalid_params("Missing params"));
            },
            Params::Invalid(m) => {
                return Err(RpcError { code: INVALID_PARAMS, message: m.clone() });
            },
            Params::Present => {},
        }
        self.initialized = true;
        let m = &self.metadata;
        let metadata = if m.description.is_some() || m.author.is_some() || m.homepage.is_some()
            || m.license.is_some() || m.repository.is_some() || m.supported_targets.is_some()
            || m.min_hodu_version.is_some() {
            Some(
                PluginMetadata {
                    description: clone_opt_string(&m.description),
                    author: clone_opt_string(&m.author),
                    homepage: clone_opt_string(&m.homepage),
                    license: clone_opt_string(&m.license),
                    repository: clone_opt_string(&m.repository),
                    supported_targets: clone_opt_strings(&m.supported_targets),
                    min_hodu_version: clone_opt_string(&m.min_hodu_version),
                },
            )
        } else {
            None
        };
        Ok(
            InitializeResult {
                name: self.name.clone(),
                version: self.version.clone(),
                protocol_version: String::from_str(PROTOCOL_VERSION),
                plugin_version: String::from_str(PLUGIN_VERSION),
                capabilities: clone_strings(&self.capabilities),
                model_extensions: clone_opt_strings(&self.model_extensions),
                tensor_extensions: clone_opt_strings(&self.tensor_extensions),
                devices: clone_opt_strings(&self.devices),
                metadata,
            },
        )
    }

    /// Whether a handler for request `id` is running.
    pub fn is_active(&self, id: &RequestId) -> (r: bool)
        ensures
            r == ids_view(self.active@).contains(id@),
    {
        let mut i: usize = 0;
        while i < self.active.len()
            invariant
                i <= self.active@.len(),
                forall|j: int| 0 <= j < i ==> self.active@[j]@ != id@,
            decreases self.active@.len() - i,
        {
            if request_id_eq(&self.active[i], id) {
                assert(ids_view(self.active@)[i as int] == id@);
                return true;
            }
            i = i + 1;
        }
        assert forall|j: int| 0 <= j < ids_view(self.active@).len() implies ids_view(self.active@)[j]
            != id@ by {}
        false
    }

    /// Decides what to do with a request: answer `initialize` and `$/ping`,
    /// hand over `shutdown` and `$/cancel`, refuse everything else until the
    /// session is initialized, and then run the registered handler or answer
    /// that the method does not exist.
    pub fn begin(&mut self, req: &Request) -> (step: Step)
        requires
            old(self).wf(),
        ensures
            final(self).wf(),
            req.method@ == "initialize"@ ==> answers(step, req.id) && (step matches Step::Reply(r) ==> (
            r.outcome is Initialized <==> (!old(self).initialized && req.params == Params::Present)))
                && final(self).initialized == (old(self).initialized || req.params == Params::Present),
            req.method@ == "shutdown"@ ==> step is Shutdown,
            req.method@ == "$/cancel"@ ==> step is Cancel,
            req.method@ == "$/ping"@ ==> answers(step, req.id) && (step matches Step::Reply(r) ==> is_pong(
                r.outcome,
            )),
            !is_reserved(req.method@) && !old(self).initialized ==> answers(step, req.id) && (
            step matches Step::Reply(r) ==> is_error_with(r.outcome, INVALID_REQUEST)
                && r.outcome->Error_0.message@ == "Server not initialized"@),
            !is_reserved(req.method@) && old(self).initialized ==> match step {
                Step::Run { handler, timeout_ms } => {
                    &&& handler < old(self).methods@.len()
                    &&& old(self).methods@[handler as int].name@ == req.method@
                    &&& timeout_ms == if old(self).methods@[handler as int].timeout_ms is Some {
                        old(self).methods@[handler as int].timeout_ms
                    } else {
                        old(self).default_timeout_ms
                    }
                    &&& ids_view(final(self).active@) == match req.id {
                        Some(i) => if ids_view(old(self).active@).contains(i@) {
                            ids_view(old(self).active@)
                        } else {
                            ids_view(old(self).active@).push(i@)
                        },
                        None => ids_view(old(self).active@),
                    }
                },
                Step::Reply(r) => {
                    &&& answers(step, req.id)
                    &&& is_error_with(r.outcome, METHOD_NOT_FOUND)
                    &&& forall|j: int|
                        0 <= j < old(self).methods@.len() ==> (#[trigger] old(self).methods@[j]).name@
                            != req.method@
                },
                Step::Silent => req.id is None && forall|j: int|
                    0 <= j < old(self).methods@.len() ==> (#[trigger] old(self).methods@[j]).name@
                        != req.method@,
                _ => false,
            },
            !(step is Run) ==> final(self).active@ == old(self).active@,
            final(self).methods@ == old(self).methods@,
            req.method@ != "initialize"@ ==> final(self).initialized == old(self).initialized,
    {
        proof {
            reveal_strlit("initialize");
            reveal_strlit("shutdown");
            reveal_strlit("$/cancel");
            reveal_strlit("$/ping");
            assert("shutdown"@[0] != "$/cancel"@[0]);
            assert("$/cancel"@.len() != "$/ping"@.len());
            assert("initialize"@.len() != "$/ping"@.len());
            assert("shutdown"@.len() != "$/ping"@.len());
        }
        let m = req.method.as_str();
        let outcome = if crate::device::str_eq(m, "initialize") {
            match self.handle_initialize(&req.params) {
                Ok(res) => Outcome::Initialized(res),
                Err(e) => Outcome::Error(e),
            }
        } else if crate::device::str_eq(m, "shutdown") {
            return Step::Shutdown;
        } else if crate::device::str_eq(m, "$/cancel") {
            return Step::Cancel;
        } else if crate::device::str_eq(m, "$/ping") {
            Outcome::Value(String::from_str("{\"status\":\"ok\"}"))
        } else if !self.initialized {
            Outcome::Error(RpcError::invalid_request("Server not initialized"))
        } else {
            match self.find_method(m) {
                Some(i) => {
                    let t = match self.methods[i].timeout_ms {
                        Some(t) => Some(t),
                        None => self.default_timeout_ms,
                    };
                    match &req.id {
                        Some(id) => {
                            if !self.is_active(id) {
                                let c = id.copy();
                                self.active.push(c);
                                assert(ids_view(self.active@) =~= ids_view(old(self).active@).push(id@));
                                assert forall|a: int, b: int|
                                    0 <= a < b < self.active@.len() implies self.active@[a]@
                                    != self.active@[b]@ by {
                                    if b == self.active@.len() - 1 {
                                        assert(ids_view(old(self).active@)[a] == self.active@[a]@);
                                    }
                                }
                            }
                        },
                        None => {},
                    }
                    return Step::Run { handler: i, timeout_ms: t };
                },
                None => Outcome::Error(RpcError::method_not_found(m)),
            }
        };
        match &req.id {
            Some(id) => Step::Reply(Response { id: id.copy(), outcome }),
            None => Step::Silent,
        }
    }

    /// Turns a handler's outcome into the response for request `id` (none
    /// for a notification) and marks the request as no longer running.
    pub fn finish(&mut self, id: &Option<RequestId>, result: Result<String, RpcError>) -> (r: Option<Response>)
        requires
            old(self).wf(),
        ensures
            final(self).wf(),
            finished(*id, result, r),
            id is Some ==> !ids_view(final(self).active@).contains(id->Some_0@),
            id is None ==> final(self).active@ == old(self).active@,
            final(self).methods@ == old(self).methods@,
            final(self).initialized == old(self).initialized,
    {
        match id {
            None => None,
            Some(i) => {
                self.remove_active(i);
                let outcome = match result {
                    Ok(v) => Outcome::Value(v),
                    Err(e) => Outcome::Error(e),
                };
                Some(Response { id: i.copy(), outcome })
            },
        }
    }

    fn remove_active(&mut self, id: &RequestId)
        requires
            old(self).wf(),
        ensures
            final(self).wf(),
            !ids_view(final(self).active@).contains(id@),
            final(self).methods@ == old(self).methods@,
            final(self).initialized == old(self).initialized,
    {
        let mut kept: Vec<RequestId> = Vec::new();
        let mut i: usize = 0;
        while i < self.active.len()
            invariant
                i <= self.active@.len(),
                self.methods@ == old(self).methods@,
                self.initialized == old(self).initialized,
                self.wf(),
                forall|j: int| 0 <= j < kept@.len() ==> kept@[j]@ != id@,
                forall|a: int, b: int|
                    #![trigger kept@[a], kept@[b]]
                    0 <= a < b < kept@.len() ==> kept@[a]@ != kept@[b]@,
                forall|k: int|
                    0 <= k < kept@.len() ==> exists|j: int|
                        0 <= j < i && (#[trigger] kept@[k])@ == #[trigger] self.active@[j]@,
            decreases self.active@.len() - i,
        {
            if !request_id_eq(&self.active[i], id) {
                let c = self.active[i].copy();
                let ghost old_kept = kept@;
                kept.push(c);
                assert forall|a: int, b: int|
                    #![trigger kept@[a], kept@[b]]
                    0 <= a < b < kept@.len() implies kept@[a]@ != kept@[b]@ by {
                    if b == kept@.len() - 1 {
                        assert(kept@[a] == old_kept[a]);
                        let j = choose|j: int| 0 <= j < i && old_kept[a]@ == self.active@[j]@;
                        assert(self.active@[j]@ != self.active@[i as int]@);
                    } else {
                        assert(kept@[a] == old_kept[a] && kept@[b] == old_kept[b]);
                    }
                }
                assert forall|k: int| 0 <= k < kept@.len() implies exists|j: int|
                    0 <= j < i + 1 && (#[trigger] kept@[k])@ == #[trigger] self.active@[j]@ by {
                    if k < kept@.len() - 1 {
                        assert(kept@[k] == old_kept[k]);
                    } else {
                        assert(kept@[k]@ == self.active@[i as int]@);
                    }
                }
            }
            i = i + 1;
        }
        self.active = kept;
        assert forall|j: int| 0 <= j < ids_view(self.active@).len() implies ids_view(self.active@)[j]
            != id@ by {}
    }
}

/// Whether two request ids are equal.
pub fn request_id_eq(a: &RequestId, b: &RequestId) -> (r: bool)
    ensures
        r == (a@ == b@),
{
    match (a, b) {
        (RequestId::Number(x), RequestId::Number(y)) => *x == *y,
        (RequestId::Str(x), RequestId::Str(y)) => crate::device::str_eq(x.as_str(), y.as_str()),
        _ => false,
    }
}

/// The response that a handler's outcome `result` becomes for request `id`.
pub open spec fn finished(id: Option<RequestId>, result: Result<String, RpcError>, r: Option<Response>) -> bool {
    &&& id is None ==> r is None
    &&& id is Some ==> r is Some && r->Some_0.id@ == id->Some_0@ && match result {
        Ok(v) => r->Some_0.outcome == Outcome::Value(v),
        Err(e) => r->Some_0.outcome == Outcome::Error(e),
    }
}

/// A handler that gave up on being cancelled, or that timed out, answers its
/// request with an error whose code is `REQUEST_CANCELLED`.
pub proof fn lemma_cancelled_response(
    id: RequestId,
    e: RpcError,
    r: Option<Response>,
)
    requires
        e.code == REQUEST_CANCELLED,
        finished(Some(id), Err(e), r),
    ensures
        r is Some,
        r->Some_0.id@ == id@,
        is_error_with(r->Some_0.outcome, REQUEST_CANCELLED),
{
}

/// The response to a request that the pre-request hook rejected with `error`
/// (none for a notification).
pub fn rejected(id: &Option<RequestId>, error: RpcError) -> (r: Option<Response>)
    ensures
        finished(*id, Err(error), r),
{
    match id {
        Some(i) => Some(Response { id: i.copy(), outcome: Outcome::Error(error) }),
        None => None,
    }
}

/// What the post-request hook is told about a finished request: it succeeded
/// when it ended without `error`.
pub fn response_info(method: &str, id: &Option<RequestId>, error: &Option<RpcError>, duration_ms: u64) -> (r: ResponseInfo)
    ensures
        r.method@ == method@,
        r.id is Some <==> id is Some,
        r.id is Some ==> r.id->Some_0@ == id->Some_0@,
        r.success == error is None,
        r.error_code == match error {
            Some(e) => Some(e.code),
            None => None,
        },
        r.duration_ms == duration_ms,
{
    let rid = match id {
        Some(i) => Some(i.copy()),
        None => None,
    };
    let code = match error {
        Some(e) => Some(e.code),
        None => None,
    };
    ResponseInfo {
        method: String::from_str(method),
        id: rid,
        success: error.is_none(),
        error_code: code,
        duration_ms,
    }
}

/// The answer to a line that is not valid JSON, or not a request.
pub fn parse_error_response(message: &str) -> (r: Response)
    ensures
        r.id@ == RequestIdView::Number(0),
        is_error_with(r.outcome, PARSE_ERROR),
        r.outcome->Error_0.message@ == message@,
{
    Response { id: RequestId::Number(0), outcome: Outcome::Error(RpcError::parse_error(message)) }
}

/// The answer to a batch with no requests.
pub fn empty_batch_response() -> (r: Response)
    ensures
        r.id@ == RequestIdView::Number(0),
        is_error_with(r.outcome, INVALID_REQUEST),
        r.outcome->Error_0.message@ == "Empty batch"@,
{
    Response { id: RequestId::Number(0), outcome: Outcome::Error(RpcError::invalid_request("Empty batch")) }
}

/// Methods that the session answers itself, whatever handlers exist.
pub open spec fn is_reserved(m: Seq<char>) -> bool {
    m == "initialize"@ || m == "shutdown"@ || m == "$/cancel"@ || m == "$/ping"@
}

/// The responses of a batch, in order, without the requests that got none.
pub open spec fn present(replies: Seq<Option<Response>>) -> Seq<Response>
    decreases replies.len(),
{
    if replies.len() == 0 {
        Seq::empty()
    } else {
        let rest = present(replies.drop_last());
        match replies.last() {
            Some(r) => rest.push(r),
            None => rest,
        }
    }
}

/// Gathers the responses of a batch in the order of its requests, leaving
/// out notifications.
pub fn collect_batch(replies: Vec<Option<Response>>) -> (r: Vec<Response>)
    ensures
        r@ == present(replies@),
{
    let ghost orig = replies@;
    let n = replies.len();
    let mut rs = replies;
    let mut out: Vec<Response> = Vec::new();
    let mut i: usize = 0;
    while i < n
        invariant
            i <= n,
            n == orig.len(),
            rs@ == orig.subrange(i as int, n as int),
            out@ == present(orig.subrange(0, i as int)),
        decreases n - i,
    {
        assert(orig.subrange(0, i + 1).drop_last() =~= orig.subrange(0, i as int));
        let x = rs.remove(0);
        assert(x == orig[i as int]);
        match x {
            Some(resp) => {
                out.push(resp);
            },
            None => {},
        }
        i = i + 1;
        assert(rs@ =~= orig.subrange(i as int, n as int));
    }
    assert(orig.subrange(0, n as int) =~= orig);
    out
}

/// A batch in which every request has an id and gets its response back in
/// order: the response array has one response per request, and the `i`-th
/// answers the `i`-th request.
pub proof fn lemma_batch_ordering(ids: Seq<RequestId>, replies: Seq<Option<Response>>)
    requires
        replies.len() == ids.len(),
        forall|i: int| 0 <= i < ids.len() ==> (#[trigger] replies[i]) is Some && replies[i]->Some_0.id@
            == ids[i]@,
    ensures
        present(replies).len() == ids.len(),
        forall|i: int| 0 <= i < ids.len() ==> (#[trigger] present(replies)[i]).id@ == ids[i]@,
    decreases replies.len(),
{
    if replies.len() > 0 {
        let n = replies.len() - 1;
        lemma_batch_ordering(ids.subrange(0, n as int), replies.drop_last());
        assert(replies[n as int] is Some);
        assert forall|i: int| 0 <= i < ids.len() implies (#[trigger] present(replies)[i]).id@ == ids[i]@ by {
            if i < n {
                assert(replies.drop_last()[i] == replies[i]);
                assert(ids.subrange(0, n as int)[i] == ids[i]);
            }
        }
    }
}

} // verus!
