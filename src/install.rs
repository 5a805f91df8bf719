//! The install sequence: named steps run one after another through an
//! installer executable, each after its model file has been found; the
//! first failure ends the sequence, and only the first step's output is
//! observed for progress.

use vstd::prelude::*;

verus! {

/// One step: a model name, its model file in the bundle, and whether its
/// output is read for progress.
pub struct InstallStep {
    pub name: String,
    pub resource: String,
    pub observed: bool,
}

pub struct StepView {
    pub name: Seq<char>,
    pub resource: Seq<char>,
    pub observed: bool,
}

impl View for InstallStep {
    type V = StepView;

    open spec fn view(&self) -> StepView {
        StepView { name: self.name@, resource: self.resource@, observed: self.observed }
    }
}

/// Builds the steps for `(name, model file)` pairs, in order; only the first
/// step is observed.
pub fn install_plan(models: Vec<(String, String)>) -> (r: Vec<InstallStep>)
    ensures
        r@.len() == models@.len(),
        forall|i: int|
            0 <= i < r@.len() ==> (#[trigger] r@[i])@ == (StepView {
                name: models@[i].0@,
                resource: models@[i].1@,
                observed: i == 0,
            }),
{
    let mut steps: Vec<InstallStep> = Vec::new();
    let n = models.len();
    let mut i: usize = 0;
    while i < n
        invariant
            n == models@.len(),
            i <= n,
            steps@.len() == i,
            forall|k: int|
                0 <= k < i ==> (#[trigger] steps@[k])@ == (StepView {
                    name: models@[k].0@,
                    resource: models@[k].1@,
                    observed: k == 0,
                }),
        decreases n - i,
    {
        let step = InstallStep {
            name: models[i].0.clone(),
            resource: models[i].1.clone(),
            observed: i == 0,
        };
        steps.push(step);
        i = i + 1;
    }
    steps
}

/// The models that the companion installs, each with its model file in the
/// bundle, in installation order.
pub fn model_files() -> (r: Vec<(String, String)>)
    ensures
        r@.len() == 3,
        r@[0].0@ == "charlesJest"@ && r@[0].1@ == "resources/jestFile"@,
        r@[1].0@ == "charlesSage"@ && r@[1].1@ == "resources/sageFile"@,
        r@[2].0@ == "charlesExpert"@ && r@[2].1@ == "resources/expertFile"@,
{
    let mut models: Vec<(String, String)> = Vec::new();
    models.push((String::from_str("charlesJest"), String::from_str("resources/jestFile")));
    models.push((String::from_str("charlesSage"), String::from_str("resources/sageFile")));
    models.push((String::from_str("charlesExpert"), String::from_str("resources/expertFile")));
    models
}

/// The arguments that create model `name` from the model file at `path`.
pub open spec fn arguments_of(name: Seq<char>, path: Seq<char>) -> Seq<Seq<char>> {
    seq!["create"@, name, "-f"@, path]
}

pub fn step_arguments(name: &str, path: &str) -> (r: Vec<String>)
    ensures
        r@.map_values(|s: String| s@) == arguments_of(name@, path@),
{
    let mut args: Vec<String> = Vec::new();
    args.push(String::from_str("create"));
    args.push(String::from_str(name));
    args.push(String::from_str("-f"));
    args.push(String::from_str(path));
    assert(args@.map_values(|s: String| s@) =~= arguments_of(name@, path@));
    args
}

pub open spec fn no_installer_message() -> Seq<char> {
    "Ollama not found"@
}

pub open spec fn unresolved_message(resource: Seq<char>) -> Seq<char> {
    "Modelfile "@ + resource + " not found in bundle"@
}

pub open spec fn missing_message(path: Seq<char>) -> Seq<char> {
    "Modelfile not found at "@ + path
}

pub open spec fn failed_message(name: Seq<char>) -> Seq<char> {
    "Installation of "@ + name + " failed"@
}

/// What the sequencer asks of its driver next.
pub enum InstallAction {
    /// Look up the model file of the current step.
    Resolve { resource: String },
    /// Run the installer and report how it ended; read its output for
    /// progress when `capture` holds.
    Launch { program: String, args: Vec<String>, capture: bool },
    /// Every step succeeded.
    Complete,
    /// The sequence stopped on an error.
    Abort { message: String },
}

pub enum ActionView {
    Resolve(Seq<char>),
    Launch(Seq<char>, Seq<Seq<char>>, bool),
    Complete,
    Abort(Seq<char>),
}

impl View for InstallAction {
    type V = ActionView;

    open spec fn view(&self) -> ActionView {
        match self {
            InstallAction::Resolve { resource } => ActionView::Resolve(resource@),
            InstallAction::Launch { program, args, capture } => ActionView::Launch(
                program@,
                args@.map_values(|s: String| s@),
                *capture,
            ),
            InstallAction::Complete => ActionView::Complete,
            InstallAction::Abort { message } => ActionView::Abort(message@),
        }
    }
}

/// What the driver reports back.
pub enum InstallEvent {
    /// The model file could not be looked up in the bundle.
    Unresolved,
    /// The model file was looked up at `path`; `exists` tells whether a file
    /// is there.
    Resolved { path: String, exists: bool },
    /// The installer could not be started or waited for.
    Failed { message: String },
    /// The installer exited, successfully or not.
    Exited { success: bool },
}

pub enum EventView {
    Unresolved,
    Resolved(Seq<char>, bool),
    Failed(Seq<char>),
    Exited(bool),
}

impl View for InstallEvent {
    type V = EventView;

    open spec fn view(&self) -> EventView {
        match self {
            InstallEvent::Unresolved => EventView::Unresolved,
            InstallEvent::Resolved { path, exists } => EventView::Resolved(path@, *exists),
            InstallEvent::Failed { message } => EventView::Failed(message@),
            InstallEvent::Exited { success } => EventView::Exited(*success),
        }
    }
}

enum Phase {
    Resolving,
    Running(String),
    Finished,
    Aborted(String),
}

pub enum PhaseView {
    /// Waiting for the current step's model file.
    Resolving,
    /// The current step's installer runs on the model file at this path.
    Running(Seq<char>),
    Finished,
    Aborted(Seq<char>),
}

pub struct SequencerView {
    pub program: Seq<char>,
    pub steps: Seq<StepView>,
    pub index: int,
    pub phase: PhaseView,
}

impl SequencerView {
    /// The current step exists while the sequence runs.
    pub open spec fn wf(self) -> bool {
        &&& 0 <= self.index <= self.steps.len()
        &&& (self.phase is Resolving || self.phase is Running) ==> self.index < self.steps.len()
    }

    pub open spec fn current(self) -> StepView {
        self.steps[self.index]
    }

    pub open spec fn action(self) -> ActionView {
        match self.phase {
            PhaseView::Resolving => ActionView::Resolve(self.current().resource),
            PhaseView::Running(path) => ActionView::Launch(
                self.program,
                arguments_of(self.current().name, path),
                self.current().observed,
            ),
            PhaseView::Finished => ActionView::Complete,
            PhaseView::Aborted(m) => ActionView::Abort(m),
        }
    }

    /// The state after an event; an event that does not fit the phase
    /// changes nothing.
    pub open spec fn after(self, e: EventView) -> SequencerView {
        match (self.phase, e) {
            (PhaseView::Resolving, EventView::Unresolved) => SequencerView {
                phase: PhaseView::Aborted(unresolved_message(self.current().resource)),
                ..self
            },
            (PhaseView::Resolving, EventView::Resolved(path, exists)) => if exists {
                SequencerView { phase: PhaseView::Running(path), ..self }
            } else {
                SequencerView { phase: PhaseView::Aborted(missing_message(path)), ..self }
            },
            (PhaseView::Running(_), EventView::Failed(m)) => SequencerView {
                phase: PhaseView::Aborted(m),
                ..self
            },
            (PhaseView::Running(_), EventView::Exited(success)) => if !success {
                SequencerView {
                    phase: PhaseView::Aborted(failed_message(self.current().name)),
                    ..self
                }
            } else if self.index + 1 < self.steps.len() {
                SequencerView { index: self.index + 1, phase: PhaseView::Resolving, ..self }
            } else {
                SequencerView { index: self.index + 1, phase: PhaseView::Finished, ..self }
            },
            _ => self,
        }
    }
}

/// Drives the steps of an install, one decision at a time.
pub struct InstallSequencer {
    program: String,
    steps: Vec<InstallStep>,
    index: usize,
    phase: Phase,
}

spec fn phase_view(p: Phase) -> PhaseView {
    match p {
        Phase::Resolving => PhaseView::Resolving,
        Phase::Running(path) => PhaseView::Running(path@),
        Phase::Finished => PhaseView::Finished,
        Phase::Aborted(m) => PhaseView::Aborted(m@),
    }
}

impl View for InstallSequencer {
    type V = SequencerView;

    closed spec fn view(&self) -> SequencerView {
        SequencerView {
            program: self.program@,
            steps: self.steps@.map_values(|s: InstallStep| s@),
            index: self.index as int,
            phase: phase_view(self.phase),
        }
    }
}

impl InstallSequencer {
    /// A sequence over `steps` run by the installer at `program`; without an
    /// installer it stops at once, and without steps it is complete.
    pub fn new(program: Option<String>, steps: Vec<InstallStep>) -> (r: InstallSequencer)
        ensures
            r@.wf(),
            r@.steps == steps@.map_values(|s: InstallStep| s@),
            r@.index == 0,
            program is None ==> r@.phase == PhaseView::Aborted(no_installer_message()),
            program is Some ==> r@.program == program->Some_0@,
            program is Some && steps@.len() == 0 ==> r@.phase == PhaseView::Finished,
            program is Some && steps@.len() > 0 ==> r@.phase == PhaseView::Resolving,
    {
        match program {
            None => InstallSequencer {
                program: String::new(),
                steps,
                index: 0,
                phase: Phase::Aborted(String::from_str("Ollama not found")),
            },
            Some(p) => {
                let phase = if steps.len() == 0 {
                    Phase::Finished
                } else {
                    Phase::Resolving
                };
                InstallSequencer { program: p, steps, index: 0, phase }
            },
        }
    }

    /// What the driver has to do next.
    pub fn next_action(&self) -> (r: InstallAction)
        requires
            self@.wf(),
        ensures
            r@ == self@.action(),
    {
        match &self.phase {
            Phase::Resolving => InstallAction::Resolve { resource: self.steps[self.index].resource.clone() },
            Phase::Running(path) => {
                let step = &self.steps[self.index];
                InstallAction::Launch {
                    program: self.program.clone(),
                    args: step_arguments(step.name.as_str(), path.as_str()),
                    capture: step.observed,
                }
            },
            Phase::Finished => InstallAction::Complete,
            Phase::Aborted(m) => InstallAction::Abort { message: m.clone() },
        }
    }

    /// Takes what the driver reports.
    pub fn on_event(&mut self, event: InstallEvent)
        requires
            old(self)@.wf(),
        ensures
            final(self)@.wf(),
            final(self)@ == old(self)@.after(event@),
    {
        match (&self.phase, event) {
            (Phase::Resolving, InstallEvent::Unresolved) => {
                let m = String::from_str("Modelfile ").concat(self.steps[self.index].resource.as_str()).concat(
                    " not found in bundle",
                );
                self.phase = Phase::Aborted(m);
            },
            (Phase::Resolving, InstallEvent::Resolved { path, exists }) => {
                if exists {
                    self.phase = Phase::Running(path);
                } else {
                    let m = String::from_str("Modelfile not found at ").concat(path.as_str());
                    self.phase = Phase::Aborted(m);
                }
            },
            (Phase::Running(_), InstallEvent::Failed { message }) => {
                self.phase = Phase::Aborted(message);
            },
            (Phase::Running(_), InstallEvent::Exited { success }) => {
                let i = self.index;
                let n = self.steps.len();
                assert(i < n);
                if !success {
                    let m = String::from_str("Installation of ").concat(self.steps[self.index].name.as_str()).concat(
                        " failed",
                    );
                    self.phase = Phase::Aborted(m);
                } else if i + 1 < n {
                    self.index = i + 1;
                    self.phase = Phase::Resolving;
                } else {
                    self.index = i + 1;
                    self.phase = Phase::Finished;
                }
            },
            _ => {},
        }
    }
}

} // verus!
