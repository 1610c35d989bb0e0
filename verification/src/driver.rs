//! The driver of a run, as a state machine.
//!
//! The caller walks the tree, reads files, makes directories and talks to
//! the backend; the driver decides. Each call of `step` takes what just
//! happened and answers with the one thing to do next, so files are handled
//! strictly one after the other: found, validated, mapped, dispatched,
//! counted.

use vstd::prelude::*;
use vstd::string::*;
use crate::audio::{validate_wav, wav_header, HeaderError};
use crate::dispatch::{
    outcome_of, Backend, BackendView, DenoiseOutcome, FailureReason, Order, OrderView, Reply,
    ReplyView,
};
use crate::paths::{has_wav_suffix, is_candidate, mirrored, parent_dir, parent_of, under_root, Roots};
use crate::text::{decimal, decimal_text, prefixed, signed_decimal, signed_decimal_text};

verus! {

/// How many files were denoised and how many were passed over.
#[derive(Clone, Copy, Debug, PartialEq, Eq, Structural)]
pub struct Counters {
    pub processed: u64,
    pub skipped: u64,
}

impl Counters {
    /// The files accounted for.
    pub open spec fn total(self) -> nat {
        (self.processed + self.skipped) as nat
    }
}

/// The line that reports a file in another format.
pub open spec fn skip_text(path: Seq<char>) -> Seq<char> {
    "Skipping invalid WAV file: "@ + path
}

/// The line that reports a file the backend failed on, with the exit code
/// where there is one.
pub open spec fn failure_text(path: Seq<char>, reason: FailureReason) -> Seq<char> {
    match reason {
        FailureReason::ExitCode(code) => "Denoising failed for "@ + path + ": exit code "@
            + signed_decimal_text(code as int),
        _ => "Denoising failed for "@ + path,
    }
}

/// The line that ends a run.
pub open spec fn summary_text(counters: Counters) -> Seq<char> {
    "Denoising complete: "@ + decimal_text(counters.processed as nat) + " files processed, "@
        + decimal_text(counters.skipped as nat) + " skipped."@
}

/// Writes the line that reports a file in another format.
pub fn skip_line(path: &str) -> (line: String)
    ensures
        line@ == skip_text(path@),
{
    let mut line = String::from_str("Skipping invalid WAV file: ");
    line.append(path);
    line
}

/// Writes the line that reports a file the backend failed on.
pub fn failure_line(path: &str, reason: FailureReason) -> (line: String)
    ensures
        line@ == failure_text(path@, reason),
{
    let mut line = String::from_str("Denoising failed for ");
    line.append(path);
    match reason {
        FailureReason::ExitCode(code) => {
            line.append(": exit code ");
            let digits = signed_decimal(code);
            line.append(digits.as_str());
        },
        _ => {},
    }
    line
}

/// Writes the line that ends a run.
pub fn summary_line(counters: &Counters) -> (line: String)
    ensures
        line@ == summary_text(*counters),
{
    let mut line = String::from_str("Denoising complete: ");
    let processed = decimal(counters.processed);
    line.append(processed.as_str());
    line.append(" files processed, ");
    let skipped = decimal(counters.skipped);
    line.append(skipped.as_str());
    line.append(" skipped.");
    line
}

/// How many bytes of a candidate are asked for at first. The header of a
/// plain WAV file is far shorter.
pub const FIRST_READ: u64 = 4096;

/// How many bytes are asked for once `asked` were not enough.
pub open spec fn doubled(asked: u64) -> u64 {
    if asked > u64::MAX / 2 {
        u64::MAX
    } else {
        (2 * asked) as u64
    }
}

/// Where the driver stands with the file at hand.
#[derive(Clone, Debug, PartialEq, Eq)]
pub enum Phase {
    /// Between files: the next entry of the walk is awaited.
    Walking,
    /// The first `asked` bytes of `input` are awaited.
    Validating { input: String, asked: u64 },
    /// The directory that `output` lies in is being made.
    Preparing { input: String, output: String },
    /// The backend's reply on `input` is awaited.
    Dispatching { input: String },
    /// The walk is over and the summary is out.
    Finished,
    /// The run was given up.
    Failed,
}

pub enum PhaseView {
    Walking,
    Validating { input: Seq<char>, asked: u64 },
    Preparing { input: Seq<char>, output: Seq<char> },
    Dispatching { input: Seq<char> },
    Finished,
    Failed,
}

impl View for Phase {
    type V = PhaseView;

    open spec fn view(&self) -> PhaseView {
        match self {
            Phase::Walking => PhaseView::Walking,
            Phase::Validating { input, asked } => PhaseView::Validating {
                input: input@,
                asked: *asked,
            },
            Phase::Preparing { input, output } => PhaseView::Preparing {
                input: input@,
                output: output@,
            },
            Phase::Dispatching { input } => PhaseView::Dispatching { input: input@ },
            Phase::Finished => PhaseView::Finished,
            Phase::Failed => PhaseView::Failed,
        }
    }
}

/// What ends a run before its summary.
#[derive(Debug)]
pub enum Fatal {
    /// The header of a candidate cannot be parsed.
    MalformedHeader { path: String, cause: HeaderError },
    /// A candidate cannot be read.
    Unreadable { path: String },
    /// A candidate does not lie under the input root.
    NotUnderRoot { path: String },
    /// The directory for an output file cannot be made.
    Directory { path: String },
    /// The backend cannot be reached or does not answer as agreed.
    Transport { path: String },
    /// A counter is full.
    TooManyFiles,
    /// The driver was told of something it had not asked for.
    OutOfTurn,
}

pub enum FatalView {
    MalformedHeader { path: Seq<char> },
    Unreadable { path: Seq<char> },
    NotUnderRoot { path: Seq<char> },
    Directory { path: Seq<char> },
    Transport { path: Seq<char> },
    TooManyFiles,
    OutOfTurn,
}

impl View for Fatal {
    type V = FatalView;

    open spec fn view(&self) -> FatalView {
        match self {
            Fatal::MalformedHeader { path, cause } => FatalView::MalformedHeader { path: path@ },
            Fatal::Unreadable { path } => FatalView::Unreadable { path: path@ },
            Fatal::NotUnderRoot { path } => FatalView::NotUnderRoot { path: path@ },
            Fatal::Directory { path } => FatalView::Directory { path: path@ },
            Fatal::Transport { path } => FatalView::Transport { path: path@ },
            Fatal::TooManyFiles => FatalView::TooManyFiles,
            Fatal::OutOfTurn => FatalView::OutOfTurn,
        }
    }
}

/// The line that reports why a run was given up.
pub open spec fn fatal_text(fatal: FatalView) -> Seq<char> {
    match fatal {
        FatalView::MalformedHeader { path } => "Failed to open WAV file: "@ + path,
        FatalView::Unreadable { path } => "Failed to read WAV file: "@ + path,
        FatalView::NotUnderRoot { path } => "Failed to compute relative path for: "@ + path,
        FatalView::Directory { path } => "Failed to create output directory for: "@ + path,
        FatalView::Transport { path } => "Failed to run the denoiser for: "@ + path,
        FatalView::TooManyFiles => "Too many files to count"@,
        FatalView::OutOfTurn => "Event out of turn"@,
    }
}

impl Fatal {
    /// Writes the line that reports why the run was given up: what was
    /// being attempted, and on which path.
    pub fn message(&self) -> (line: String)
        ensures
            line@ == fatal_text(self@),
    {
        match self {
            Fatal::MalformedHeader { path, cause } => prefixed(
                "Failed to open WAV file: ",
                path.as_str(),
            ),
            Fatal::Unreadable { path } => prefixed("Failed to read WAV file: ", path.as_str()),
            Fatal::NotUnderRoot { path } => prefixed(
                "Failed to compute relative path for: ",
                path.as_str(),
            ),
            Fatal::Directory { path } => prefixed(
                "Failed to create output directory for: ",
                path.as_str(),
            ),
            Fatal::Transport { path } => prefixed("Failed to run the denoiser for: ", path.as_str()),
            Fatal::TooManyFiles => String::from_str("Too many files to count"),
            Fatal::OutOfTurn => String::from_str("Event out of turn"),
        }
    }
}

/// What the caller tells the driver.
#[derive(Clone, Debug, PartialEq, Eq)]
pub enum Event {
    /// The walk came upon `path`.
    Entry { path: String, is_file: bool },
    /// The walk is over.
    EndOfTree,
    /// The beginning of the file asked for: as many bytes as were asked
    /// for, or fewer where the file ends before that.
    Header { bytes: Vec<u8> },
    /// The directory asked for exists.
    DirectoryReady,
    /// The order was carried out and this came back.
    Replied { reply: Reply },
    /// What was asked for could not be done.
    Failed,
}

pub enum EventView {
    Entry { path: Seq<char>, is_file: bool },
    EndOfTree,
    Header { bytes: Seq<u8> },
    DirectoryReady,
    Replied { reply: ReplyView },
    Failed,
}

impl View for Event {
    type V = EventView;

    open spec fn view(&self) -> EventView {
        match self {
            Event::Entry { path, is_file } => EventView::Entry { path: path@, is_file: *is_file },
            Event::EndOfTree => EventView::EndOfTree,
            Event::Header { bytes } => EventView::Header { bytes: bytes@ },
            Event::DirectoryReady => EventView::DirectoryReady,
            Event::Replied { reply } => EventView::Replied { reply: reply@ },
            Event::Failed => EventView::Failed,
        }
    }
}

/// What the driver asks of the caller.
#[derive(Debug)]
pub enum Action {
    /// Print the diagnostic, if there is one, and hand over the next entry
    /// of the walk, or its end.
    NextEntry { diagnostic: Option<String> },
    /// Hand over the first `length` bytes of the file at `path`, or all of
    /// it where it is shorter. The samples of a file are never asked for.
    ReadHeader { path: String, length: u64 },
    /// Make the directory `path`, with every directory above it that is
    /// missing.
    CreateDirectory { path: String },
    /// Carry out the order and hand over the reply.
    Dispatch { order: Order },
    /// Print the summary and end with success.
    Finish { summary: String },
    /// End with an error.
    Abort { fatal: Fatal },
}

pub enum ActionView {
    NextEntry { diagnostic: Option<Seq<char>> },
    ReadHeader { path: Seq<char>, length: u64 },
    CreateDirectory { path: Seq<char> },
    Dispatch { order: OrderView },
    Finish { summary: Seq<char> },
    Abort { fatal: FatalView },
}

impl View for Action {
    type V = ActionView;

    open spec fn view(&self) -> ActionView {
        match self {
            Action::NextEntry { diagnostic } => ActionView::NextEntry {
                diagnostic: diagnostic.deep_view(),
            },
            Action::ReadHeader { path, length } => ActionView::ReadHeader {
                path: path@,
                length: *length,
            },
            Action::CreateDirectory { path } => ActionView::CreateDirectory { path: path@ },
            Action::Dispatch { order } => ActionView::Dispatch { order: order@ },
            Action::Finish { summary } => ActionView::Finish { summary: summary@ },
            Action::Abort { fatal } => ActionView::Abort { fatal: fatal@ },
        }
    }
}

/// The state of a run: the two roots, the backend, the counters and the
/// phase.
pub struct DriverView {
    pub input_root: Seq<char>,
    pub output_root: Seq<char>,
    pub backend: BackendView,
    pub counters: Counters,
    pub phase: PhaseView,
}

impl DriverView {
    /// The state at the start of a run.
    pub open spec fn initial(
        input_root: Seq<char>,
        output_root: Seq<char>,
        backend: BackendView,
    ) -> DriverView {
        DriverView {
            input_root,
            output_root,
            backend,
            counters: Counters { processed: 0, skipped: 0 },
            phase: PhaseView::Walking,
        }
    }

    /// The run is given up for `fatal`.
    pub open spec fn fail(self, fatal: FatalView) -> (DriverView, ActionView) {
        (DriverView { phase: PhaseView::Failed, ..self }, ActionView::Abort { fatal })
    }

    /// The file at hand is passed over, with a diagnostic.
    pub open spec fn skip(self, diagnostic: Seq<char>) -> (DriverView, ActionView) {
        if self.counters.skipped == u64::MAX {
            self.fail(FatalView::TooManyFiles)
        } else {
            (
                DriverView {
                    counters: Counters { skipped: (self.counters.skipped + 1) as u64, ..self.counters },
                    phase: PhaseView::Walking,
                    ..self
                },
                ActionView::NextEntry { diagnostic: Some(diagnostic) },
            )
        }
    }

    /// The file at hand was denoised.
    pub open spec fn complete(self) -> (DriverView, ActionView) {
        if self.counters.processed == u64::MAX {
            self.fail(FatalView::TooManyFiles)
        } else {
            (
                DriverView {
                    counters: Counters {
                        processed: (self.counters.processed + 1) as u64,
                        ..self.counters
                    },
                    phase: PhaseView::Walking,
                    ..self
                },
                ActionView::NextEntry { diagnostic: None },
            )
        }
    }

    /// The file at hand goes to the backend.
    pub open spec fn dispatch(self, input: Seq<char>, output: Seq<char>) -> (
        DriverView,
        ActionView,
    ) {
        (
            DriverView {
                backend: self.backend.after_order(),
                phase: PhaseView::Dispatching { input },
                ..self
            },
            ActionView::Dispatch { order: self.backend.order_for(input, output) },
        )
    }

    /// The beginning of `input` came in. Where it holds no header, more is
    /// asked for as long as the file may have more; a file that ends
    /// without one gives the run up. A file in another format is passed
    /// over, an accepted one is mapped into the output tree, and its
    /// directory is asked for if it has one.
    pub open spec fn on_header(self, input: Seq<char>, asked: u64, bytes: Seq<u8>) -> (
        DriverView,
        ActionView,
    ) {
        match wav_header(bytes) {
            None => if bytes.len() < asked || asked == u64::MAX {
                self.fail(FatalView::MalformedHeader { path: input })
            } else {
                (
                    DriverView {
                        phase: PhaseView::Validating { input, asked: doubled(asked) },
                        ..self
                    },
                    ActionView::ReadHeader { path: input, length: doubled(asked) },
                )
            },
            Some(spec) => {
                if !spec.accepted() {
                    self.skip(skip_text(input))
                } else if !under_root(self.input_root, input) {
                    self.fail(FatalView::NotUnderRoot { path: input })
                } else {
                    let output = mirrored(self.input_root, self.output_root, input);
                    match parent_of(output) {
                        Some(directory) => (
                            DriverView { phase: PhaseView::Preparing { input, output }, ..self },
                            ActionView::CreateDirectory { path: directory },
                        ),
                        None => self.dispatch(input, output),
                    }
                }
            },
        }
    }

    /// The backend's reply on `input` came back.
    pub open spec fn on_reply(self, input: Seq<char>, reply: ReplyView) -> (
        DriverView,
        ActionView,
    ) {
        match outcome_of(reply) {
            DenoiseOutcome::Success => self.complete(),
            DenoiseOutcome::Failure(reason) => self.skip(failure_text(input, reason)),
        }
    }

    /// One step of a run: the state after `event`, and what is asked next.
    pub open spec fn step(self, event: EventView) -> (DriverView, ActionView) {
        match self.phase {
            PhaseView::Walking => match event {
                EventView::Entry { path, is_file } => if is_candidate(path, is_file) {
                    (
                        DriverView {
                            phase: PhaseView::Validating { input: path, asked: FIRST_READ },
                            ..self
                        },
                        ActionView::ReadHeader { path, length: FIRST_READ },
                    )
                } else {
                    (self, ActionView::NextEntry { diagnostic: None })
                },
                EventView::EndOfTree => (
                    DriverView { phase: PhaseView::Finished, ..self },
                    ActionView::Finish { summary: summary_text(self.counters) },
                ),
                _ => self.fail(FatalView::OutOfTurn),
            },
            PhaseView::Validating { input, asked } => match event {
                EventView::Header { bytes } => self.on_header(input, asked, bytes),
                EventView::Failed => self.fail(FatalView::Unreadable { path: input }),
                _ => self.fail(FatalView::OutOfTurn),
            },
            PhaseView::Preparing { input, output } => match event {
                EventView::DirectoryReady => self.dispatch(input, output),
                EventView::Failed => self.fail(FatalView::Directory { path: output }),
                _ => self.fail(FatalView::OutOfTurn),
            },
            PhaseView::Dispatching { input } => match event {
                EventView::Replied { reply } => self.on_reply(input, reply),
                EventView::Failed => self.fail(FatalView::Transport { path: input }),
                _ => self.fail(FatalView::OutOfTurn),
            },
            PhaseView::Finished => self.fail(FatalView::OutOfTurn),
            PhaseView::Failed => self.fail(FatalView::OutOfTurn),
        }
    }
}

/// The driver of one run.
#[derive(Debug)]
pub struct Driver {
    roots: Roots,
    backend: Backend,
    counters: Counters,
    phase: Phase,
}

impl View for Driver {
    type V = DriverView;

    closed spec fn view(&self) -> DriverView {
        DriverView {
            input_root: self.roots.input_root(),
            output_root: self.roots.output_root(),
            backend: self.backend@,
            counters: self.counters,
            phase: self.phase@,
        }
    }
}

impl Driver {
    /// A driver at the start of a run: nothing counted, the first entry of
    /// the walk awaited.
    pub fn new(roots: Roots, backend: Backend) -> (driver: Driver)
        ensures
            driver@ == DriverView::initial(roots.input_root(), roots.output_root(), backend@),
    {
        Driver {
            roots,
            backend,
            counters: Counters { processed: 0, skipped: 0 },
            phase: Phase::Walking,
        }
    }

    /// The counters as they stand.
    pub fn counters(&self) -> (counters: Counters)
        ensures
            counters == self@.counters,
    {
        self.counters
    }

    /// The phase the driver is in.
    pub fn phase(&self) -> (phase: &Phase)
        ensures
            phase@ == self@.phase,
    {
        &self.phase
    }

    fn fail(&mut self, fatal: Fatal) -> (action: Action)
        ensures
            (final(self)@, action@) == old(self)@.fail(fatal@),
    {
        self.phase = Phase::Failed;
        Action::Abort { fatal }
    }

    fn skip(&mut self, diagnostic: String) -> (action: Action)
        ensures
            (final(self)@, action@) == old(self)@.skip(diagnostic@),
    {
        if self.counters.skipped == u64::MAX {
            self.fail(Fatal::TooManyFiles)
        } else {
            self.counters.skipped = self.counters.skipped + 1;
            self.phase = Phase::Walking;
            Action::NextEntry { diagnostic: Some(diagnostic) }
        }
    }

    fn complete(&mut self) -> (action: Action)
        ensures
            (final(self)@, action@) == old(self)@.complete(),
    {
        if self.counters.processed == u64::MAX {
            self.fail(Fatal::TooManyFiles)
        } else {
            self.counters.processed = self.counters.processed + 1;
            self.phase = Phase::Walking;
            Action::NextEntry { diagnostic: None }
        }
    }

    fn dispatch(&mut self, input: String, output: String) -> (action: Action)
        ensures
            (final(self)@, action@) == old(self)@.dispatch(input@, output@),
    {
        let order = self.backend.order(input.as_str(), output.as_str());
        self.phase = Phase::Dispatching { input };
        Action::Dispatch { order }
    }

    fn on_header(&mut self, input: String, asked: u64, bytes: Vec<u8>) -> (action: Action)
        ensures
            (final(self)@, action@) == old(self)@.on_header(input@, asked, bytes@),
    {
        match validate_wav(bytes.as_slice()) {
            Err(cause) => {
                if (bytes.len() as u64) < asked || asked == u64::MAX {
                    self.fail(Fatal::MalformedHeader { path: input, cause })
                } else {
                    let length = if asked > u64::MAX / 2 {
                        u64::MAX
                    } else {
                        2 * asked
                    };
                    let path = input.clone();
                    self.phase = Phase::Validating { input, asked: length };
                    Action::ReadHeader { path, length }
                }
            },
            Ok(accepted) => {
                if !accepted {
                    let line = skip_line(input.as_str());
                    self.skip(line)
                } else {
                    match self.roots.mirror(input.as_str()) {
                        Err(_) => self.fail(Fatal::NotUnderRoot { path: input }),
                        Ok(output) => {
                            match parent_dir(output.as_str()) {
                                Some(directory) => {
                                    self.phase = Phase::Preparing { input, output };
                                    Action::CreateDirectory { path: directory }
                                },
                                None => self.dispatch(input, output),
                            }
                        },
                    }
                }
            },
        }
    }

    fn on_reply(&mut self, input: String, reply: Reply) -> (action: Action)
        ensures
            (final(self)@, action@) == old(self)@.on_reply(input@, reply@),
    {
        match reply.outcome() {
            DenoiseOutcome::Success => self.complete(),
            DenoiseOutcome::Failure(reason) => {
                let line = failure_line(input.as_str(), reason);
                self.skip(line)
            },
        }
    }

    /// Takes what happened and answers with what to do next.
    ///
    /// An event that does not answer the last action, and any event after
    /// the end of the run, gives the run up.
    pub fn step(&mut self, event: Event) -> (action: Action)
        ensures
            (final(self)@, action@) == old(self)@.step(event@),
    {
        let mut phase = Phase::Failed;
        std::mem::swap(&mut self.phase, &mut phase);
        match phase {
            Phase::Walking => match event {
                Event::Entry { path, is_file } => {
                    if is_file && has_wav_suffix(path.as_str()) {
                        let input = path.clone();
                        self.phase = Phase::Validating { input, asked: FIRST_READ };
                        Action::ReadHeader { path, length: FIRST_READ }
                    } else {
                        self.phase = Phase::Walking;
                        Action::NextEntry { diagnostic: None }
                    }
                },
                Event::EndOfTree => {
                    self.phase = Phase::Finished;
                    Action::Finish { summary: summary_line(&self.counters) }
                },
                _ => self.fail(Fatal::OutOfTurn),
            },
            Phase::Validating { input, asked } => match event {
                Event::Header { bytes } => self.on_header(input, asked, bytes),
                Event::Failed => self.fail(Fatal::Unreadable { path: input }),
                _ => self.fail(Fatal::OutOfTurn),
            },
            Phase::Preparing { input, output } => match event {
                Event::DirectoryReady => self.dispatch(input, output),
                Event::Failed => self.fail(Fatal::Directory { path: output }),
                _ => self.fail(Fatal::OutOfTurn),
            },
            Phase::Dispatching { input } => match event {
                Event::Replied { reply } => self.on_reply(input, reply),
                Event::Failed => self.fail(Fatal::Transport { path: input }),
                _ => self.fail(Fatal::OutOfTurn),
            },
            Phase::Finished => self.fail(Fatal::OutOfTurn),
            Phase::Failed => self.fail(Fatal::OutOfTurn),
        }
    }
}

} // verus!
