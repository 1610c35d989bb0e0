//! The three backends and what each is told: a request for a remote worker,
//! or the command line of a local one.
//!
//! Nothing is sent or spawned here. A backend turns a pair of paths into an
//! `Order` that says what to do, and a `Reply` into the outcome it stands for.

use vstd::prelude::*;
use vstd::string::*;
use crate::text::{chars_of, copy_of};

verus! {

/// What parts the addresses of a pool on the command line.
pub const LIST_SEPARATOR: char = ',';

/// A left-to-right reading of an address list: the addresses that are
/// complete, and the characters read since the last separator.
pub open spec fn scan_list(s: Seq<char>) -> (Seq<Seq<char>>, Seq<char>)
    decreases s.len(),
{
    if s.len() == 0 {
        (Seq::empty(), Seq::empty())
    } else {
        let (done, current) = scan_list(s.drop_last());
        if s.last() != LIST_SEPARATOR {
            (done, current.push(s.last()))
        } else if current.len() > 0 {
            (done.push(current), Seq::empty())
        } else {
            (done, Seq::empty())
        }
    }
}

/// The addresses in a comma-separated list, in order. Empty pieces are not
/// addresses.
pub open spec fn endpoint_list(s: Seq<char>) -> Seq<Seq<char>> {
    let (done, current) = scan_list(s);
    if current.len() > 0 {
        done.push(current)
    } else {
        done
    }
}

/// No address of a list is empty, and none holds a separator.
pub proof fn lemma_endpoint_list_pieces(s: Seq<char>)
    ensures
        forall|i: int|
            0 <= i < endpoint_list(s).len() ==> (#[trigger] endpoint_list(s)[i]).len() > 0
                && !endpoint_list(s)[i].contains(LIST_SEPARATOR),
        !scan_list(s).1.contains(LIST_SEPARATOR),
    decreases s.len(),
{
    if s.len() > 0 {
        let t = s.drop_last();
        lemma_endpoint_list_pieces(t);
        let (done, current) = scan_list(t);
        assert forall|i: int| 0 <= i < done.len() implies (#[trigger] done[i]).len() > 0
            && !done[i].contains(LIST_SEPARATOR) by {
            assert(done[i] == endpoint_list(t)[i]);
        }
    }
}

/// Splits the value of an address flag at its commas.
pub fn split_endpoints(list: &str) -> (urls: Vec<String>)
    ensures
        urls.deep_view() == endpoint_list(list@),
{
    let c = chars_of(list);
    let mut urls: Vec<String> = Vec::new();
    let mut start: usize = 0;
    let mut i: usize = 0;
    while i < c.len()
        invariant
            c@ == list@,
            start <= i <= c.len(),
            urls.deep_view() == scan_list(c@.take(i as int)).0,
            c@.subrange(start as int, i as int) == scan_list(c@.take(i as int)).1,
        decreases c.len() - i,
    {
        assert(c@.take(i + 1).drop_last() == c@.take(i as int));
        if c[i] == LIST_SEPARATOR {
            if i > start {
                urls.push(String::from_str(list.substring_char(start, i)));
            }
            start = i + 1;
        }
        i = i + 1;
    }
    assert(c@.take(i as int) == c@);
    if i > start {
        urls.push(String::from_str(list.substring_char(start, i)));
    }
    urls
}

/// Why no backend could be set up.
#[derive(Clone, Copy, Debug, PartialEq, Eq, Structural)]
pub enum ConfigError {
    /// The single remote backend was given no address.
    MissingEndpoint,
    /// The pool was given no address.
    EmptyEndpointList,
}

/// A cyclic selector over a list of addresses: the list and the place of
/// the address that serves next.
pub struct RingView {
    pub endpoints: Seq<Seq<char>>,
    pub next: nat,
}

impl RingView {
    /// The list is not empty and the place lies in it.
    pub open spec fn wf(self) -> bool {
        self.next < self.endpoints.len()
    }

    /// The address that serves next.
    pub open spec fn current(self) -> Seq<char> {
        self.endpoints[self.next as int]
    }

    /// One step on, back to the first address after the last.
    pub open spec fn advanced(self) -> RingView {
        RingView {
            endpoints: self.endpoints,
            next: ((self.next + 1) as int % (self.endpoints.len() as int)) as nat,
        }
    }

    /// `k` steps on.
    pub open spec fn advanced_by(self, k: nat) -> RingView
        decreases k,
    {
        if k == 0 {
            self
        } else {
            self.advanced_by((k - 1) as nat).advanced()
        }
    }
}

/// Strict round-robin: after `k` requests the ring stands `k` places on,
/// counted around the list, so a fresh ring over `n` addresses serves them
/// in the order 0, 1, …, n-1, 0, 1, … whatever became of the requests.
pub proof fn lemma_round_robin(ring: RingView, k: nat)
    requires
        ring.wf(),
    ensures
        ring.advanced_by(k).wf(),
        ring.advanced_by(k).endpoints == ring.endpoints,
        ring.advanced_by(k).next == (ring.next + k) as int % (ring.endpoints.len() as int),
    decreases k,
{
    let n = ring.endpoints.len() as int;
    if k == 0 {
        vstd::arithmetic::div_mod::lemma_small_mod(ring.next, ring.endpoints.len());
    } else {
        lemma_round_robin(ring, (k - 1) as nat);
        let before = ring.next + k - 1;
        vstd::arithmetic::div_mod::lemma_add_mod_noop(before, 1, n);
        vstd::arithmetic::div_mod::lemma_mod_twice(before, n);
        if n > 1 {
            vstd::arithmetic::div_mod::lemma_small_mod(1, n as nat);
        }
        vstd::arithmetic::div_mod::lemma_mod_bound(before + 1, n);
    }
}

/// The pool of a pool backend.
#[derive(Debug, PartialEq, Eq)]
pub struct EndpointRing {
    endpoints: Vec<String>,
    next: usize,
}

impl View for EndpointRing {
    type V = RingView;

    closed spec fn view(&self) -> RingView {
        RingView { endpoints: self.endpoints.deep_view(), next: self.next as nat }
    }
}

impl EndpointRing {
    /// The place of the next address lies in the list, which is therefore
    /// not empty.
    #[verifier::type_invariant]
    spec fn inv(self) -> bool {
        self.next < self.endpoints.len()
    }

    /// A ring over `endpoints` that starts at the first of them. A ring
    /// needs at least one address.
    pub fn new(endpoints: Vec<String>) -> (res: Result<EndpointRing, ConfigError>)
        ensures
            match res {
                Ok(ring) => endpoints.len() > 0 && ring@ == (RingView {
                    endpoints: endpoints.deep_view(),
                    next: 0,
                }) && ring@.wf(),
                Err(e) => endpoints.len() == 0 && e == ConfigError::EmptyEndpointList,
            },
    {
        if endpoints.len() == 0 {
            Err(ConfigError::EmptyEndpointList)
        } else {
            Ok(EndpointRing { endpoints, next: 0 })
        }
    }

    /// How many addresses the ring holds: at least one.
    pub fn len(&self) -> (n: usize)
        ensures
            n == self@.endpoints.len(),
            self@.wf(),
    {
        proof {
            use_type_invariant(self);
        }
        self.endpoints.len()
    }

    /// The place of the address that serves next.
    pub fn position(&self) -> (i: usize)
        ensures
            i == self@.next,
            self@.wf(),
    {
        proof {
            use_type_invariant(self);
        }
        self.next
    }

    /// The address at a place of the list, if the list has that place.
    pub fn endpoint(&self, index: usize) -> (url: Option<&str>)
        ensures
            match url {
                Some(url) => index < self@.endpoints.len() && url@ == self@.endpoints[index as int],
                None => index >= self@.endpoints.len(),
            },
    {
        if index < self.endpoints.len() {
            Some(self.endpoints[index].as_str())
        } else {
            None
        }
    }

    /// The address that serves next.
    pub fn current(&self) -> (url: &str)
        ensures
            url@ == self@.current(),
            self@.wf(),
    {
        proof {
            use_type_invariant(self);
        }
        self.endpoints[self.next].as_str()
    }

    /// Picks the address that serves the next request and moves the ring one
    /// step on. The result is the place of the address picked.
    pub fn select(&mut self) -> (pick: usize)
        ensures
            old(self)@.wf(),
            pick == old(self)@.next,
            final(self)@ == old(self)@.advanced(),
            final(self)@.wf(),
    {
        proof {
            use_type_invariant(&*self);
        }
        let pick = self.next;
        let n = self.endpoints.len();
        if pick + 1 == n {
            proof {
                vstd::arithmetic::div_mod::lemma_mod_self_0(n as int);
            }
            self.next = 0;
        } else {
            proof {
                vstd::arithmetic::div_mod::lemma_small_mod((pick + 1) as nat, n as nat);
            }
            self.next = pick + 1;
        }
        pick
    }
}

/// The record a remote worker is sent. The model is an identifier that
/// the worker knows; it is left out where none was chosen.
#[derive(Clone, Debug, PartialEq, Eq)]
pub struct RemoteRequest {
    pub filename: String,
    pub filename_denoised: String,
    pub model: Option<String>,
}

/// What has to be done to have one file denoised.
#[derive(Clone, Debug, PartialEq, Eq)]
pub enum Order {
    /// Send `request` to the worker at `url`.
    Post { url: String, request: RemoteRequest },
    /// Run `program` with `args` and wait for it to end.
    Spawn { program: String, args: Vec<String> },
}

pub enum OrderView {
    Post {
        url: Seq<char>,
        filename: Seq<char>,
        filename_denoised: Seq<char>,
        model: Option<Seq<char>>,
    },
    Spawn { program: Seq<char>, args: Seq<Seq<char>> },
}

impl View for Order {
    type V = OrderView;

    open spec fn view(&self) -> OrderView {
        match self {
            Order::Post { url, request } => OrderView::Post {
                url: url@,
                filename: request.filename@,
                filename_denoised: request.filename_denoised@,
                model: request.model.deep_view(),
            },
            Order::Spawn { program, args } => OrderView::Spawn {
                program: program@,
                args: args.deep_view(),
            },
        }
    }
}

/// The name under which the local denoiser is looked up where no path to
/// it is given.
pub open spec fn default_executable() -> Seq<char> {
    "nnnoiseless"@
}

/// The arguments of the local denoiser: the model file first, where one was
/// chosen, then the input path, then the output path.
pub open spec fn local_args(model_path: Option<Seq<char>>, input: Seq<char>, output: Seq<char>) -> Seq<
    Seq<char>,
> {
    match model_path {
        Some(model) => seq!["--model="@ + model, input, output],
        None => seq![input, output],
    }
}

/// One of the three ways to have a file denoised.
#[derive(Debug, PartialEq, Eq)]
pub enum Backend {
    /// A remote worker at a fixed address.
    Single { url: String, model: Option<String> },
    /// Remote workers that take turns.
    Pool { ring: EndpointRing, model: Option<String> },
    /// A program run for each file. The model is a path to a file.
    Local { executable: String, model_path: Option<String> },
}

pub enum BackendView {
    Single { url: Seq<char>, model: Option<Seq<char>> },
    Pool { ring: RingView, model: Option<Seq<char>> },
    Local { executable: Seq<char>, model_path: Option<Seq<char>> },
}

impl BackendView {
    /// A pool has a ring to pick from.
    pub open spec fn wf(self) -> bool {
        self matches BackendView::Pool { ring, .. } ==> ring.wf()
    }

    /// The order that has `input` denoised into `output`.
    pub open spec fn order_for(self, input: Seq<char>, output: Seq<char>) -> OrderView {
        match self {
            BackendView::Single { url, model } => OrderView::Post {
                url,
                filename: input,
                filename_denoised: output,
                model,
            },
            BackendView::Pool { ring, model } => OrderView::Post {
                url: ring.current(),
                filename: input,
                filename_denoised: output,
                model,
            },
            BackendView::Local { executable, model_path } => OrderView::Spawn {
                program: executable,
                args: local_args(model_path, input, output),
            },
        }
    }

    /// The backend once an order was given: a pool has moved on by one.
    pub open spec fn after_order(self) -> BackendView {
        match self {
            BackendView::Pool { ring, model } => BackendView::Pool { ring: ring.advanced(), model },
            _ => self,
        }
    }
}

impl View for Backend {
    type V = BackendView;

    open spec fn view(&self) -> BackendView {
        match self {
            Backend::Single { url, model } => BackendView::Single {
                url: url@,
                model: model.deep_view(),
            },
            Backend::Pool { ring, model } => BackendView::Pool {
                ring: ring@,
                model: model.deep_view(),
            },
            Backend::Local { executable, model_path } => BackendView::Local {
                executable: executable@,
                model_path: model_path.deep_view(),
            },
        }
    }
}

/// The characters of a flag, none where the flag is absent.
pub open spec fn text_of(flag: Option<Seq<char>>) -> Seq<char> {
    match flag {
        Some(value) => value,
        None => Seq::empty(),
    }
}

/// Which of the three backends a run uses.
#[derive(Clone, Copy, Debug, PartialEq, Eq, Structural)]
pub enum Mode {
    Single,
    Pool,
    Local,
}

/// The backend of a mode, set up from the flags that belong to it, or why
/// there is none. A remote backend needs an address, a pool at least one;
/// the local denoiser goes by its usual name unless a path is given.
pub open spec fn backend_for(
    mode: Mode,
    addr_api: Option<Seq<char>>,
    model: Option<Seq<char>>,
    nnnoiseless_path: Option<Seq<char>>,
    model_path: Option<Seq<char>>,
) -> Result<BackendView, ConfigError> {
    match mode {
        Mode::Single => if text_of(addr_api).len() == 0 {
            Err(ConfigError::MissingEndpoint)
        } else {
            Ok(BackendView::Single { url: text_of(addr_api), model })
        },
        Mode::Pool => if endpoint_list(text_of(addr_api)).len() == 0 {
            Err(ConfigError::EmptyEndpointList)
        } else {
            Ok(
                BackendView::Pool {
                    ring: RingView { endpoints: endpoint_list(text_of(addr_api)), next: 0 },
                    model,
                },
            )
        },
        Mode::Local => Ok(
            BackendView::Local {
                executable: match nnnoiseless_path {
                    Some(path) => path,
                    None => default_executable(),
                },
                model_path,
            },
        ),
    }
}

impl Backend {
    /// The single remote backend. It needs an address.
    pub fn single(addr_api: Option<String>, model: Option<String>) -> (res: Result<
        Backend,
        ConfigError,
    >)
        ensures
            match res {
                Ok(backend) => text_of(addr_api.deep_view()).len() > 0 && backend@ == (BackendView::Single {
                    url: text_of(addr_api.deep_view()),
                    model: model.deep_view(),
                }),
                Err(e) => text_of(addr_api.deep_view()).len() == 0 && e == ConfigError::MissingEndpoint,
            },
    {
        match addr_api {
            Some(url) => {
                if url.as_str().is_empty() {
                    Err(ConfigError::MissingEndpoint)
                } else {
                    Ok(Backend::Single { url, model })
                }
            },
            None => Err(ConfigError::MissingEndpoint),
        }
    }

    /// The pool backend over a comma-separated list of addresses. A flag
    /// that is absent, or holds no address, is an error.
    pub fn pool(addr_api: Option<String>, model: Option<String>) -> (res: Result<
        Backend,
        ConfigError,
    >)
        ensures
            match res {
                Ok(backend) => endpoint_list(text_of(addr_api.deep_view())).len() > 0 && backend@ == (
                BackendView::Pool {
                    ring: RingView { endpoints: endpoint_list(text_of(addr_api.deep_view())), next: 0 },
                    model: model.deep_view(),
                }) && backend@.wf(),
                Err(e) => endpoint_list(text_of(addr_api.deep_view())).len() == 0 && e
                    == ConfigError::EmptyEndpointList,
            },
    {
        let endpoints = match addr_api {
            Some(list) => split_endpoints(list.as_str()),
            None => {
                let none: Vec<String> = Vec::new();
                none
            },
        };
        match EndpointRing::new(endpoints) {
            Ok(ring) => Ok(Backend::Pool { ring, model }),
            Err(e) => Err(e),
        }
    }

    /// The local backend. Without a path the denoiser is looked up by its
    /// usual name.
    pub fn local(executable: Option<String>, model_path: Option<String>) -> (backend: Backend)
        ensures
            backend@ == (BackendView::Local {
                executable: match executable {
                    Some(path) => path@,
                    None => default_executable(),
                },
                model_path: model_path.deep_view(),
            }),
    {
        let executable = match executable {
            Some(path) => path,
            None => String::from_str("nnnoiseless"),
        };
        Backend::Local { executable, model_path }
    }

    /// The backend of `mode`, set up from the flags that belong to it.
    pub fn configure(
        mode: Mode,
        addr_api: Option<String>,
        model: Option<String>,
        nnnoiseless_path: Option<String>,
        model_path: Option<String>,
    ) -> (res: Result<Backend, ConfigError>)
        ensures
            match res {
                Ok(backend) => backend@.wf() && backend_for(
                    mode,
                    addr_api.deep_view(),
                    model.deep_view(),
                    nnnoiseless_path.deep_view(),
                    model_path.deep_view(),
                ) == Ok::<BackendView, ConfigError>(backend@),
                Err(e) => backend_for(
                    mode,
                    addr_api.deep_view(),
                    model.deep_view(),
                    nnnoiseless_path.deep_view(),
                    model_path.deep_view(),
                ) == Err::<BackendView, ConfigError>(e),
            },
    {
        match mode {
            Mode::Single => Backend::single(addr_api, model),
            Mode::Pool => Backend::pool(addr_api, model),
            Mode::Local => Ok(Backend::local(nnnoiseless_path, model_path)),
        }
    }

    /// The order that has `input` denoised into `output`. A pool picks the
    /// address whose turn it is and moves on, whatever comes of the order.
    pub fn order(&mut self, input: &str, output: &str) -> (order: Order)
        ensures
            old(self)@.wf(),
            order@ == old(self)@.order_for(input@, output@),
            final(self)@ == old(self)@.after_order(),
            final(self)@.wf(),
    {
        match self {
            Backend::Single { url, model } => Order::Post {
                url: url.clone(),
                request: RemoteRequest {
                    filename: String::from_str(input),
                    filename_denoised: String::from_str(output),
                    model: copy_of(model),
                },
            },
            Backend::Pool { ring, model } => {
                let url = String::from_str(ring.current());
                ring.select();
                Order::Post {
                    url,
                    request: RemoteRequest {
                        filename: String::from_str(input),
                        filename_denoised: String::from_str(output),
                        model: copy_of(model),
                    },
                }
            },
            Backend::Local { executable, model_path } => {
                let mut args: Vec<String> = Vec::new();
                match model_path {
                    Some(path) => {
                        let mut flag = String::from_str("--model=");
                        flag.append(path.as_str());
                        args.push(flag);
                    },
                    None => {},
                }
                args.push(String::from_str(input));
                args.push(String::from_str(output));
                assert(args.deep_view() =~= local_args(model_path.deep_view(), input@, output@));
                Order::Spawn { program: executable.clone(), args }
            },
        }
    }
}

/// What came back from carrying out an order.
#[derive(Clone, Debug, PartialEq, Eq)]
pub enum Reply {
    /// The answer of a remote worker.
    Response { filename_denoised: String },
    /// The end of the local denoiser, with its exit code if it has one.
    Exited { code: Option<i32> },
}

pub enum ReplyView {
    Response { filename_denoised: Seq<char> },
    Exited { code: Option<i32> },
}

impl View for Reply {
    type V = ReplyView;

    open spec fn view(&self) -> ReplyView {
        match self {
            Reply::Response { filename_denoised } => ReplyView::Response {
                filename_denoised: filename_denoised@,
            },
            Reply::Exited { code } => ReplyView::Exited { code: *code },
        }
    }
}

/// Why a backend did not produce the output file.
#[derive(Clone, Copy, Debug, PartialEq, Eq, Structural)]
pub enum FailureReason {
    /// The worker answered with an empty output name.
    EmptyResponse,
    /// The denoiser ended with this code, which is not zero.
    ExitCode(i32),
    /// The denoiser ended without an exit code.
    NoExitCode,
}

/// What became of one request.
#[derive(Clone, Copy, Debug, PartialEq, Eq, Structural)]
pub enum DenoiseOutcome {
    Success,
    Failure(FailureReason),
}

/// A worker succeeded if it names the output; the denoiser, if it ended
/// with code zero.
pub open spec fn outcome_of(reply: ReplyView) -> DenoiseOutcome {
    match reply {
        ReplyView::Response { filename_denoised } => if filename_denoised.len() == 0 {
            DenoiseOutcome::Failure(FailureReason::EmptyResponse)
        } else {
            DenoiseOutcome::Success
        },
        ReplyView::Exited { code: Some(code) } => if code == 0 {
            DenoiseOutcome::Success
        } else {
            DenoiseOutcome::Failure(FailureReason::ExitCode(code))
        },
        ReplyView::Exited { code: None } => DenoiseOutcome::Failure(FailureReason::NoExitCode),
    }
}

impl Reply {
    /// The outcome this reply stands for.
    pub fn outcome(&self) -> (outcome: DenoiseOutcome)
        ensures
            outcome == outcome_of(self@),
    {
        match self {
            Reply::Response { filename_denoised } => {
                if filename_denoised.as_str().is_empty() {
                    DenoiseOutcome::Failure(FailureReason::EmptyResponse)
                } else {
                    DenoiseOutcome::Success
                }
            },
            Reply::Exited { code: Some(code) } => {
                if *code == 0 {
                    DenoiseOutcome::Success
                } else {
                    DenoiseOutcome::Failure(FailureReason::ExitCode(*code))
                }
            },
            Reply::Exited { code: None } => DenoiseOutcome::Failure(FailureReason::NoExitCode),
        }
    }
}

} // verus!
