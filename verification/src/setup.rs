//! The start of a run: from the command line's values to a driver.
//!
//! The order is fixed. The input root is resolved first and has to exist;
//! the output root is made if it is missing and resolved only then, so that
//! resolving it cannot fail on a missing directory; the backend is set up
//! last. Nothing is walked before all of that is done.

use vstd::prelude::*;
use vstd::string::*;
use crate::dispatch::{backend_for, Backend, BackendView, ConfigError, Mode};
use crate::text::{copy_of, prefixed};
use crate::driver::{Driver, DriverView};
use crate::paths::{is_absolute, Roots, RootsError};

verus! {

/// The values of the command line.
#[derive(Clone, Debug, PartialEq, Eq)]
pub struct Flags {
    pub input_dir: String,
    pub output_dir: String,
    pub mode: Mode,
    /// The address of the remote backend, or the addresses of the pool.
    pub addr_api: Option<String>,
    /// The model a remote backend is asked for.
    pub model: Option<String>,
    /// The path of the local denoiser.
    pub nnnoiseless_path: Option<String>,
    /// The model file the local denoiser is given.
    pub model_path: Option<String>,
}

pub struct FlagsView {
    pub input_dir: Seq<char>,
    pub output_dir: Seq<char>,
    pub mode: Mode,
    pub addr_api: Option<Seq<char>>,
    pub model: Option<Seq<char>>,
    pub nnnoiseless_path: Option<Seq<char>>,
    pub model_path: Option<Seq<char>>,
}

impl View for Flags {
    type V = FlagsView;

    open spec fn view(&self) -> FlagsView {
        FlagsView {
            input_dir: self.input_dir@,
            output_dir: self.output_dir@,
            mode: self.mode,
            addr_api: self.addr_api.deep_view(),
            model: self.model.deep_view(),
            nnnoiseless_path: self.nnnoiseless_path.deep_view(),
            model_path: self.model_path.deep_view(),
        }
    }
}

impl FlagsView {
    /// The backend that the flags ask for, or why there is none.
    pub open spec fn backend(self) -> Result<BackendView, ConfigError> {
        backend_for(self.mode, self.addr_api, self.model, self.nnnoiseless_path, self.model_path)
    }
}

/// Why a run did not start.
#[derive(Clone, Debug, PartialEq, Eq)]
pub enum SetupError {
    /// The input root does not exist or cannot be resolved.
    InputRoot { path: String },
    /// The output root cannot be made.
    OutputRoot { path: String },
    /// The output root cannot be resolved.
    OutputRootUnresolved { path: String },
    /// A root was resolved to a path that is not absolute.
    NotAbsolute { root: RootsError },
    /// The flags name no usable backend.
    Config { error: ConfigError },
    /// The setup was told of something it had not asked for.
    OutOfTurn,
}

pub enum SetupErrorView {
    InputRoot { path: Seq<char> },
    OutputRoot { path: Seq<char> },
    OutputRootUnresolved { path: Seq<char> },
    NotAbsolute { root: RootsError },
    Config { error: ConfigError },
    OutOfTurn,
}

impl View for SetupError {
    type V = SetupErrorView;

    open spec fn view(&self) -> SetupErrorView {
        match self {
            SetupError::InputRoot { path } => SetupErrorView::InputRoot { path: path@ },
            SetupError::OutputRoot { path } => SetupErrorView::OutputRoot { path: path@ },
            SetupError::OutputRootUnresolved { path } => SetupErrorView::OutputRootUnresolved {
                path: path@,
            },
            SetupError::NotAbsolute { root } => SetupErrorView::NotAbsolute { root: *root },
            SetupError::Config { error } => SetupErrorView::Config { error: *error },
            SetupError::OutOfTurn => SetupErrorView::OutOfTurn,
        }
    }
}

/// The line that reports why a run did not start.
pub open spec fn setup_error_text(error: SetupErrorView) -> Seq<char> {
    match error {
        SetupErrorView::InputRoot { path } => "Failed to resolve input directory: "@ + path,
        SetupErrorView::OutputRoot { path } => "Failed to create output directory: "@ + path,
        SetupErrorView::OutputRootUnresolved { path } => "Failed to resolve output directory: "@
            + path,
        SetupErrorView::NotAbsolute { root: RootsError::InputNotAbsolute } =>
            "Input directory is not absolute"@,
        SetupErrorView::NotAbsolute { root: RootsError::OutputNotAbsolute } =>
            "Output directory is not absolute"@,
        SetupErrorView::Config { error: ConfigError::MissingEndpoint } =>
            "No backend address given"@,
        SetupErrorView::Config { error: ConfigError::EmptyEndpointList } =>
            "Empty list of backend addresses"@,
        SetupErrorView::OutOfTurn => "Event out of turn"@,
    }
}

impl SetupError {
    /// Writes the line that reports why the run did not start.
    pub fn message(&self) -> (line: String)
        ensures
            line@ == setup_error_text(self@),
    {
        match self {
            SetupError::InputRoot { path } => prefixed(
                "Failed to resolve input directory: ",
                path.as_str(),
            ),
            SetupError::OutputRoot { path } => prefixed(
                "Failed to create output directory: ",
                path.as_str(),
            ),
            SetupError::OutputRootUnresolved { path } => prefixed(
                "Failed to resolve output directory: ",
                path.as_str(),
            ),
            SetupError::NotAbsolute { root: RootsError::InputNotAbsolute } => String::from_str(
                "Input directory is not absolute",
            ),
            SetupError::NotAbsolute { root: RootsError::OutputNotAbsolute } => String::from_str(
                "Output directory is not absolute",
            ),
            SetupError::Config { error: ConfigError::MissingEndpoint } => String::from_str(
                "No backend address given",
            ),
            SetupError::Config { error: ConfigError::EmptyEndpointList } => String::from_str(
                "Empty list of backend addresses",
            ),
            SetupError::OutOfTurn => String::from_str("Event out of turn"),
        }
    }
}

/// What the caller tells the setup.
#[derive(Clone, Debug, PartialEq, Eq)]
pub enum SetupEvent {
    /// The path asked about was resolved to this absolute path.
    Resolved { path: String },
    /// The directory asked for exists.
    Created,
    /// What was asked for could not be done.
    Failed,
}

pub enum SetupEventView {
    Resolved { path: Seq<char> },
    Created,
    Failed,
}

impl View for SetupEvent {
    type V = SetupEventView;

    open spec fn view(&self) -> SetupEventView {
        match self {
            SetupEvent::Resolved { path } => SetupEventView::Resolved { path: path@ },
            SetupEvent::Created => SetupEventView::Created,
            SetupEvent::Failed => SetupEventView::Failed,
        }
    }
}

/// What the setup asks of the caller.
#[derive(Debug)]
pub enum SetupAction {
    /// Resolve `path` to an absolute path free of links. It has to exist.
    Resolve { path: String },
    /// Make the directory `path` unless it exists.
    Create { path: String },
    /// Walk `input_root` and feed the driver.
    Walk { input_root: String, driver: Driver },
    /// End with an error.
    Abort { error: SetupError },
}

pub enum SetupActionView {
    Resolve { path: Seq<char> },
    Create { path: Seq<char> },
    Walk { input_root: Seq<char>, driver: DriverView },
    Abort { error: SetupErrorView },
}

impl View for SetupAction {
    type V = SetupActionView;

    open spec fn view(&self) -> SetupActionView {
        match self {
            SetupAction::Resolve { path } => SetupActionView::Resolve { path: path@ },
            SetupAction::Create { path } => SetupActionView::Create { path: path@ },
            SetupAction::Walk { input_root, driver } => SetupActionView::Walk {
                input_root: input_root@,
                driver: driver@,
            },
            SetupAction::Abort { error } => SetupActionView::Abort { error: error@ },
        }
    }
}

/// How far the setup has come.
#[derive(Clone, Debug, PartialEq, Eq)]
pub enum SetupPhase {
    /// The input root is being resolved.
    ResolvingInput,
    /// The output root is being made.
    CreatingOutput { input_root: String },
    /// The output root is being resolved.
    ResolvingOutput { input_root: String },
    /// The driver was handed over, or the setup was given up.
    Over,
}

pub enum SetupPhaseView {
    ResolvingInput,
    CreatingOutput { input_root: Seq<char> },
    ResolvingOutput { input_root: Seq<char> },
    Over,
}

impl View for SetupPhase {
    type V = SetupPhaseView;

    open spec fn view(&self) -> SetupPhaseView {
        match self {
            SetupPhase::ResolvingInput => SetupPhaseView::ResolvingInput,
            SetupPhase::CreatingOutput { input_root } => SetupPhaseView::CreatingOutput {
                input_root: input_root@,
            },
            SetupPhase::ResolvingOutput { input_root } => SetupPhaseView::ResolvingOutput {
                input_root: input_root@,
            },
            SetupPhase::Over => SetupPhaseView::Over,
        }
    }
}

pub struct SetupView {
    pub flags: FlagsView,
    pub phase: SetupPhaseView,
}

impl SetupView {
    /// The setup is given up for `error`.
    pub open spec fn fail(self, error: SetupErrorView) -> (SetupView, SetupActionView) {
        (SetupView { phase: SetupPhaseView::Over, ..self }, SetupActionView::Abort { error })
    }

    /// Both roots are known: the roots are paired, the backend is set up,
    /// and the driver is handed over with nothing counted.
    pub open spec fn finish(self, input_root: Seq<char>, output_root: Seq<char>) -> (
        SetupView,
        SetupActionView,
    ) {
        if !is_absolute(input_root) {
            self.fail(SetupErrorView::NotAbsolute { root: RootsError::InputNotAbsolute })
        } else if !is_absolute(output_root) {
            self.fail(SetupErrorView::NotAbsolute { root: RootsError::OutputNotAbsolute })
        } else {
            match self.flags.backend() {
                Err(error) => self.fail(SetupErrorView::Config { error }),
                Ok(backend) => (
                    SetupView { phase: SetupPhaseView::Over, ..self },
                    SetupActionView::Walk {
                        input_root,
                        driver: DriverView::initial(input_root, output_root, backend),
                    },
                ),
            }
        }
    }

    /// One step of the setup.
    pub open spec fn step(self, event: SetupEventView) -> (SetupView, SetupActionView) {
        match self.phase {
            SetupPhaseView::ResolvingInput => match event {
                SetupEventView::Resolved { path } => (
                    SetupView { phase: SetupPhaseView::CreatingOutput { input_root: path }, ..self },
                    SetupActionView::Create { path: self.flags.output_dir },
                ),
                SetupEventView::Failed => self.fail(
                    SetupErrorView::InputRoot { path: self.flags.input_dir },
                ),
                _ => self.fail(SetupErrorView::OutOfTurn),
            },
            SetupPhaseView::CreatingOutput { input_root } => match event {
                SetupEventView::Created => (
                    SetupView { phase: SetupPhaseView::ResolvingOutput { input_root }, ..self },
                    SetupActionView::Resolve { path: self.flags.output_dir },
                ),
                SetupEventView::Failed => self.fail(
                    SetupErrorView::OutputRoot { path: self.flags.output_dir },
                ),
                _ => self.fail(SetupErrorView::OutOfTurn),
            },
            SetupPhaseView::ResolvingOutput { input_root } => match event {
                SetupEventView::Resolved { path } => self.finish(input_root, path),
                SetupEventView::Failed => self.fail(
                    SetupErrorView::OutputRootUnresolved { path: self.flags.output_dir },
                ),
                _ => self.fail(SetupErrorView::OutOfTurn),
            },
            SetupPhaseView::Over => self.fail(SetupErrorView::OutOfTurn),
        }
    }
}

/// The setup of one run.
#[derive(Debug)]
pub struct Setup {
    flags: Flags,
    phase: SetupPhase,
}

impl View for Setup {
    type V = SetupView;

    closed spec fn view(&self) -> SetupView {
        SetupView { flags: self.flags@, phase: self.phase@ }
    }
}

impl Setup {
    /// Begins the setup. The first thing asked is to resolve the input root.
    pub fn begin(flags: Flags) -> (res: (Setup, SetupAction))
        ensures
            res.0@ == (SetupView { flags: flags@, phase: SetupPhaseView::ResolvingInput }),
            res.1@ == (SetupActionView::Resolve { path: flags.input_dir@ }),
    {
        let path = flags.input_dir.clone();
        (Setup { flags, phase: SetupPhase::ResolvingInput }, SetupAction::Resolve { path })
    }

    fn fail(&mut self, error: SetupError) -> (action: SetupAction)
        ensures
            (final(self)@, action@) == old(self)@.fail(error@),
    {
        self.phase = SetupPhase::Over;
        SetupAction::Abort { error }
    }

    fn finish(&mut self, input_root: String, output_root: String) -> (action: SetupAction)
        ensures
            (final(self)@, action@) == old(self)@.finish(input_root@, output_root@),
    {
        let walked = input_root.clone();
        match Roots::new(input_root, output_root) {
            Err(root) => self.fail(SetupError::NotAbsolute { root }),
            Ok(roots) => {
                let backend = Backend::configure(
                    self.flags.mode,
                    copy_of(&self.flags.addr_api),
                    copy_of(&self.flags.model),
                    copy_of(&self.flags.nnnoiseless_path),
                    copy_of(&self.flags.model_path),
                );
                match backend {
                    Err(error) => self.fail(SetupError::Config { error }),
                    Ok(backend) => {
                        self.phase = SetupPhase::Over;
                        SetupAction::Walk { input_root: walked, driver: Driver::new(roots, backend) }
                    },
                }
            },
        }
    }

    /// Takes what happened and answers with what to do next. A driver that
    /// is handed over is ready for the first entry of the walk.
    pub fn step(&mut self, event: SetupEvent) -> (action: SetupAction)
        ensures
            (final(self)@, action@) == old(self)@.step(event@),
    {
        let mut phase = SetupPhase::Over;
        std::mem::swap(&mut self.phase, &mut phase);
        match phase {
            SetupPhase::ResolvingInput => match event {
                SetupEvent::Resolved { path } => {
                    self.phase = SetupPhase::CreatingOutput { input_root: path };
                    SetupAction::Create { path: self.flags.output_dir.clone() }
                },
                SetupEvent::Failed => {
                    let path = self.flags.input_dir.clone();
                    self.fail(SetupError::InputRoot { path })
                },
                _ => self.fail(SetupError::OutOfTurn),
            },
            SetupPhase::CreatingOutput { input_root } => match event {
                SetupEvent::Created => {
                    self.phase = SetupPhase::ResolvingOutput { input_root };
                    SetupAction::Resolve { path: self.flags.output_dir.clone() }
                },
                SetupEvent::Failed => {
                    let path = self.flags.output_dir.clone();
                    self.fail(SetupError::OutputRoot { path })
                },
                _ => self.fail(SetupError::OutOfTurn),
            },
            SetupPhase::ResolvingOutput { input_root } => match event {
                SetupEvent::Resolved { path } => self.finish(input_root, path),
                SetupEvent::Failed => {
                    let path = self.flags.output_dir.clone();
                    self.fail(SetupError::OutputRootUnresolved { path })
                },
                _ => self.fail(SetupError::OutOfTurn),
            },
            SetupPhase::Over => self.fail(SetupError::OutOfTurn),
        }
    }
}

/// Nothing is walked before the setup is through: a walk is asked for only
/// in answer to the resolved output root, which is asked for only once the
/// input root was resolved and the output root made.
pub proof fn lemma_walk_comes_last(setup: SetupView, event: SetupEventView)
    requires
        setup.step(event).1 is Walk,
    ensures
        setup.phase is ResolvingOutput,
        event is Resolved,
        setup.flags.backend() is Ok,
        setup.step(event).1->driver == DriverView::initial(
            setup.phase->ResolvingOutput_input_root,
            event->path,
            setup.flags.backend()->Ok_0,
        ),
{
}

} // verus!
