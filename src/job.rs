//! One conversion job as a state machine: the caller performs each requested
//! action (create the workspace, render, save a page, run the script, remove
//! the workspace) and reports what came of it; the job decides what comes
//! next and keeps the status that observers read.

use vstd::prelude::*;
use crate::script::{AssemblyError, KeynoteBuilder, assembly_result, script_text};
use crate::spool::{slide_path, slide_path_spec, workspace_dir, workspace_dir_spec, WORKSPACE_PREFIX};
use crate::text::{decimal, push_decimal, push_str};
use vstd::arithmetic::div_mod::{lemma_div_by_multiple, lemma_div_is_ordered};

verus! {

/// The resolution at which pages are rendered, in dots per inch.
pub const RENDER_DPI: u16 = 200;

/// Progress is counted in thousandths: this is a finished job.
pub const PROGRESS_DONE: u32 = 1000;

/// Progress when rendering starts.
pub const PROGRESS_RENDERING: u32 = 100;

/// Progress when the first page is being saved; saving spans up to
/// `PROGRESS_SPOOL_START + PROGRESS_SPOOL_SPAN`.
pub const PROGRESS_SPOOL_START: u32 = 200;

/// The share of progress over which saving the pages is spread.
pub const PROGRESS_SPOOL_SPAN: u32 = 500;

/// Progress when the deck is being assembled.
pub const PROGRESS_ASSEMBLING: u32 = 800;

pub const MSG_STARTING: &'static str = "Inicializando...";

pub const MSG_RENDERING: &'static str = "Renderizando páginas...";

pub const MSG_PAGE: &'static str = "Processando página ";

pub const MSG_OF: &'static str = " de ";

pub const MSG_ELLIPSIS: &'static str = "...";

pub const MSG_ASSEMBLING: &'static str = "Criando apresentação no Keynote...";

pub const MSG_DONE: &'static str = "Concluído!";

pub const MSG_OPEN: &'static str = "Falha ao abrir o arquivo PDF";

pub const MSG_RENDER: &'static str = "Falha ao renderizar página ";

/// Put before the error of a page that could not be saved, with its number.
pub const MSG_SAVE: &'static str = "Falha ao salvar página ";

pub const MSG_SEPARATOR: &'static str = ": ";

pub const MSG_TIME: &'static str = "Relógio do sistema indisponível";

/// Where a job stands. Transitions only go forward.
#[derive(Debug, Clone, Copy, PartialEq, Eq, Structural)]
pub enum Phase {
    Idle,
    Rendering,
    Spooling,
    Assembling,
    Succeeded,
    Failed,
}

/// Whether a job's status is final, and how it ended.
#[derive(Debug, Clone, Copy, PartialEq, Eq, Structural)]
pub enum StatusKind {
    InProgress,
    Succeeded,
    Failed,
}

/// What observers of a job see.
#[derive(Debug)]
pub struct ConversionStatus {
    pub message: String,
    /// In thousandths, from 0 to `PROGRESS_DONE`.
    pub progress: u32,
    pub kind: StatusKind,
}

/// Why a conversion failed.
#[derive(Debug, PartialEq, Eq)]
pub enum ConversionError {
    /// The source document could not be opened or is not a document.
    Open,
    /// The page with this 0-based ordinal could not be rendered.
    Render { page: u64 },
    /// The workspace or a spooled file could not be written; the system's
    /// own description.
    Io(String),
    /// The PDF library could not be loaded; the description of why.
    Library(String),
    /// The deck could not be assembled.
    Assembly(AssemblyError),
    /// The clock could not give the time to name the workspace.
    Time,
}

impl ConversionError {
    pub open spec fn message_spec(&self) -> Seq<char> {
        match self {
            ConversionError::Open => MSG_OPEN@,
            ConversionError::Render { page } => MSG_RENDER@ + decimal(*page as nat + 1),
            ConversionError::Io(reason) => reason@,
            ConversionError::Library(reason) => reason@,
            ConversionError::Assembly(e) => e.message_spec(),
            ConversionError::Time => MSG_TIME@,
        }
    }

    /// The text shown for this error; a page is named by its 1-based number.
    pub fn message(&self) -> (r: String)
        ensures
            r@ == self.message_spec(),
    {
        match self {
            ConversionError::Open => String::from_str(MSG_OPEN),
            ConversionError::Render { page } => {
                let mut r = String::from_str(MSG_RENDER);
                push_decimal(&mut r, *page as u128 + 1);
                r
            },
            ConversionError::Io(reason) => reason.clone(),
            ConversionError::Library(reason) => reason.clone(),
            ConversionError::Assembly(e) => e.message(),
            ConversionError::Time => String::from_str(MSG_TIME),
        }
    }
}

/// The status message of a job that failed with `err`: while pages are being
/// saved, the failure names the page that was being saved.
pub open spec fn failure_message(a: JobView, err: ConversionError) -> Seq<char> {
    if a.phase == Phase::Spooling {
        MSG_SAVE@ + decimal(a.slides.len() + 1) + MSG_SEPARATOR@ + err.message_spec()
    } else {
        err.message_spec()
    }
}

/// A page image persisted in the workspace, with the page it came from.
#[derive(Debug)]
pub struct SpooledSlide {
    pub ordinal: u64,
    pub path: String,
}

/// What the caller reports back to the job.
pub enum Event {
    /// The workspace directory exists.
    WorkspaceCreated,
    /// The document was rendered into this many page images.
    PagesRendered(u64),
    /// The page last asked for was saved.
    PageSaved,
    /// The automation interpreter ended, successfully or not, with this error output.
    ScriptFinished { success: bool, stderr: String },
    /// The work last asked for failed.
    Failed(ConversionError),
}

/// What the job asks the caller to do next.
#[derive(Debug)]
pub enum Action {
    /// Render every page of the document at this resolution.
    RenderPages { source: String, dpi: u16 },
    /// Save the page with this ordinal, as PNG, at this path.
    SavePage { ordinal: u64, path: String },
    /// Run this automation script.
    RunScript(String),
    /// Remove the workspace, best-effort: the job is over.
    RemoveWorkspace(String),
    /// Nothing: the event did not fit the job's phase.
    Nothing,
}

/// The mathematical state of a job.
pub struct JobView {
    pub source: Seq<char>,
    pub destination: Seq<char>,
    pub workspace: Seq<char>,
    pub phase: Phase,
    pub total: nat,
    pub slides: Seq<(nat, Seq<char>)>,
    pub message: Seq<char>,
    pub progress: nat,
    pub kind: StatusKind,
}

/// The status message while page `i` (0-based) of `n` is being saved.
pub open spec fn page_message(i: nat, n: nat) -> Seq<char> {
    MSG_PAGE@ + decimal(i + 1) + MSG_OF@ + decimal(n) + MSG_ELLIPSIS@
}

/// The progress while page `i` of `n` is being saved: linear over the band
/// reserved for saving.
pub open spec fn page_progress(i: nat, n: nat) -> nat {
    (PROGRESS_SPOOL_START as int + (PROGRESS_SPOOL_SPAN as int * i) / (n as int)) as nat
}

/// The paths of the spooled slides, in order.
pub open spec fn slide_paths(slides: Seq<(nat, Seq<char>)>) -> Seq<Seq<char>> {
    slides.map_values(|s: (nat, Seq<char>)| s.1)
}

impl JobView {
    pub open spec fn is_terminal(&self) -> bool {
        self.phase == Phase::Succeeded || self.phase == Phase::Failed
    }

    /// The job's invariant: the status agrees with the phase, progress reaches
    /// the end exactly on success, and the spooled slides are the pages
    /// 0, 1, 2, ... in order, each at its own path in the workspace, all of
    /// them once assembly has begun.
    pub open spec fn wf(&self) -> bool {
        &&& self.progress <= PROGRESS_DONE
        &&& (self.phase == Phase::Succeeded <==> self.kind == StatusKind::Succeeded)
        &&& (self.phase == Phase::Failed <==> self.kind == StatusKind::Failed)
        &&& (self.progress == PROGRESS_DONE <==> self.phase == Phase::Succeeded)
        &&& self.slides.len() <= self.total
        &&& forall|k: int|
            0 <= k < self.slides.len() ==> #[trigger] self.slides[k] == (
            k as nat,
            slide_path_spec(self.workspace, k as nat),
        )
        &&& (self.phase == Phase::Assembling || self.phase == Phase::Succeeded)
            ==> self.slides.len() == self.total
        &&& (self.phase == Phase::Idle || self.phase == Phase::Rendering) ==> self.slides.len() == 0
        &&& (self.phase == Phase::Idle || self.phase == Phase::Rendering) ==> self.progress
            <= PROGRESS_RENDERING
        &&& self.phase == Phase::Spooling ==> self.slides.len() < self.total && self.progress
            == page_progress(self.slides.len(), self.total)
        &&& self.phase == Phase::Assembling ==> self.progress == PROGRESS_ASSEMBLING
        &&& self.phase != Phase::Succeeded ==> self.progress <= PROGRESS_ASSEMBLING
    }
}

/// What every step of a job keeps: the invariant, a progress that never goes
/// back, the slides already spooled, and a finished job unchanged.
pub open spec fn transition(a: JobView, b: JobView) -> bool {
    &&& a.wf() ==> b.wf()
    &&& a.progress <= b.progress
    &&& a.source == b.source && a.destination == b.destination && a.workspace == b.workspace
    &&& a.slides.len() <= b.slides.len()
    &&& a.slides == b.slides.subrange(0, a.slides.len() as int)
    &&& a.is_terminal() ==> b == a
    &&& phase_rank(a.phase) <= phase_rank(b.phase)
    &&& phase_rank(a.phase) >= 2 ==> b.total == a.total
}

/// The order of phases: a job only moves to a phase of equal or higher rank.
pub open spec fn phase_rank(p: Phase) -> nat {
    match p {
        Phase::Idle => 0,
        Phase::Rendering => 1,
        Phase::Spooling => 2,
        Phase::Assembling => 3,
        Phase::Succeeded => 4,
        Phase::Failed => 4,
    }
}

/// One conversion, from its source to its destination, through its workspace.
pub struct ConversionJob {
    source: String,
    destination: String,
    workspace: String,
    phase: Phase,
    total: u64,
    slides: Vec<SpooledSlide>,
    status: ConversionStatus,
}

impl View for ConversionJob {
    type V = JobView;

    closed spec fn view(&self) -> JobView {
        JobView {
            source: self.source@,
            destination: self.destination@,
            workspace: self.workspace@,
            phase: self.phase,
            total: self.total as nat,
            slides: self.slides@.map_values(|s: SpooledSlide| (s.ordinal as nat, s.path@)),
            message: self.status.message@,
            progress: self.status.progress as nat,
            kind: self.status.kind,
        }
    }
}


/// Nothing changes and nothing is to be done.
pub open spec fn unchanged(a: JobView, b: JobView, act: Action) -> bool {
    b == a && act is Nothing
}

/// Exactly what one step does, for each event in each phase.
pub open spec fn step_spec(a: JobView, e: Event, b: JobView, act: Action) -> bool {
    match e {
        Event::WorkspaceCreated => if a.phase == Phase::Idle {
            &&& b == (JobView {
                phase: Phase::Rendering,
                message: MSG_RENDERING@,
                progress: PROGRESS_RENDERING as nat,
                ..a
            })
            &&& act matches Action::RenderPages { source, dpi } && source@ == a.source && dpi
                == RENDER_DPI
        } else {
            unchanged(a, b, act)
        },
        Event::PagesRendered(n) => if a.phase == Phase::Rendering {
            if n == 0 {
                &&& b == (JobView {
                    phase: Phase::Failed,
                    kind: StatusKind::Failed,
                    message: AssemblyError::NoSlides.message_spec(),
                    total: 0,
                    ..a
                })
                &&& act matches Action::RemoveWorkspace(w) && w@ == a.workspace
            } else {
                &&& b == (JobView {
                    phase: Phase::Spooling,
                    total: n as nat,
                    message: page_message(0, n as nat),
                    progress: page_progress(0, n as nat),
                    ..a
                })
                &&& act matches Action::SavePage { ordinal, path } && ordinal == 0 && path@
                    == slide_path_spec(a.workspace, 0)
            }
        } else {
            unchanged(a, b, act)
        },
        Event::PageSaved => if a.phase == Phase::Spooling && a.slides.len() < a.total {
            let i = a.slides.len();
            let slides = a.slides.push((i, slide_path_spec(a.workspace, i)));
            if i + 1 < a.total {
                &&& b == (JobView {
                    slides: slides,
                    message: page_message(i + 1, a.total),
                    progress: page_progress(i + 1, a.total),
                    ..a
                })
                &&& act matches Action::SavePage { ordinal, path } && ordinal == i + 1 && path@
                    == slide_path_spec(a.workspace, i + 1)
            } else {
                &&& b == (JobView {
                    phase: Phase::Assembling,
                    slides: slides,
                    message: MSG_ASSEMBLING@,
                    progress: PROGRESS_ASSEMBLING as nat,
                    ..a
                })
                &&& act matches Action::RunScript(s) && s@ == script_text(
                    slide_paths(slides),
                    a.destination,
                )
            }
        } else {
            unchanged(a, b, act)
        },
        Event::ScriptFinished { success, stderr } => if a.phase == Phase::Assembling {
            &&& if success {
                b == (JobView {
                    phase: Phase::Succeeded,
                    kind: StatusKind::Succeeded,
                    message: MSG_DONE@,
                    progress: PROGRESS_DONE as nat,
                    ..a
                })
            } else {
                b == (JobView {
                    phase: Phase::Failed,
                    kind: StatusKind::Failed,
                    message: AssemblyError::ScriptFailed(stderr).message_spec(),
                    ..a
                })
            }
            &&& act matches Action::RemoveWorkspace(w) && w@ == a.workspace
        } else {
            unchanged(a, b, act)
        },
        Event::Failed(err) => if !a.is_terminal() {
            &&& b == (JobView {
                phase: Phase::Failed,
                kind: StatusKind::Failed,
                message: failure_message(a, err),
                ..a
            })
            &&& act matches Action::RemoveWorkspace(w) && w@ == a.workspace
        } else {
            unchanged(a, b, act)
        },
    }
}

proof fn lemma_page_progress(i: nat, j: nat, n: nat)
    requires
        i <= j <= n,
        n > 0,
    ensures
        PROGRESS_SPOOL_START <= page_progress(i, n) <= page_progress(j, n),
        page_progress(j, n) <= PROGRESS_SPOOL_START + PROGRESS_SPOOL_SPAN,
        (PROGRESS_SPOOL_SPAN * j) / (n as int) <= PROGRESS_SPOOL_SPAN,
{
    let (ii, jj, nn) = (i as int, j as int, n as int);
    lemma_div_is_ordered(500 * ii, 500 * jj, nn);
    lemma_div_is_ordered(500 * jj, 500 * nn, nn);
    lemma_div_by_multiple(500, nn);
    lemma_div_is_ordered(0, 500 * ii, nn);
}

/// Appends the status message for page `i` (0-based) of `n`.
fn page_message_exec(i: u64, n: u64) -> (r: String)
    requires
        i < n,
    ensures
        r@ == page_message(i as nat, n as nat),
{
    let mut r = String::from_str(MSG_PAGE);
    push_decimal(&mut r, i as u128 + 1);
    push_str(&mut r, MSG_OF);
    push_decimal(&mut r, n as u128);
    push_str(&mut r, MSG_ELLIPSIS);
    r
}

/// The progress while page `i` of `n` is being saved.
fn page_progress_exec(i: u64, n: u64) -> (r: u32)
    requires
        i < n,
    ensures
        r as nat == page_progress(i as nat, n as nat),
{
    proof {
        lemma_page_progress(i as nat, i as nat, n as nat);
    }
    let q: u128 = (500u128 * (i as u128)) / (n as u128);
    PROGRESS_SPOOL_START + q as u32
}

impl ConversionJob {
    /// A job that converts `source` into `destination`, spooling pages into
    /// `<temp_root>/pdf2key_<nanos>`; its first action is to create that
    /// directory, then report `Event::WorkspaceCreated`.
    pub fn new(source: &str, destination: &str, temp_root: &str, nanos: u128) -> (r: Self)
        ensures
            r@.wf(),
            r@ == (JobView {
                source: source@,
                destination: destination@,
                workspace: workspace_dir_spec(temp_root@, nanos as nat),
                phase: Phase::Idle,
                total: 0,
                slides: Seq::empty(),
                message: MSG_STARTING@,
                progress: 0,
                kind: StatusKind::InProgress,
            }),
    {
        let r = ConversionJob {
            source: String::from_str(source),
            destination: String::from_str(destination),
            workspace: workspace_dir(temp_root, nanos),
            phase: Phase::Idle,
            total: 0,
            slides: Vec::new(),
            status: ConversionStatus {
                message: String::from_str(MSG_STARTING),
                progress: 0,
                kind: StatusKind::InProgress,
            },
        };
        assert(r@.slides =~= Seq::<(nat, Seq<char>)>::empty());
        r
    }

    /// The workspace directory of this job.
    pub fn workspace(&self) -> (r: &str)
        ensures
            r@ == self@.workspace,
    {
        self.workspace.as_str()
    }

    /// Where the job stands.
    pub fn phase(&self) -> (r: Phase)
        ensures
            r == self@.phase,
    {
        self.phase
    }

    /// Whether the job is still running.
    pub fn is_in_progress(&self) -> (r: bool)
        ensures
            r == !self@.is_terminal(),
    {
        !(self.phase == Phase::Succeeded || self.phase == Phase::Failed)
    }

    /// A copy of the current status.
    pub fn status(&self) -> (r: ConversionStatus)
        ensures
            r.message@ == self@.message,
            r.progress == self@.progress,
            r.kind == self@.kind,
    {
        ConversionStatus {
            message: self.status.message.clone(),
            progress: self.status.progress,
            kind: self.status.kind,
        }
    }

    /// The number of pages spooled so far.
    pub fn slide_count(&self) -> (r: usize)
        ensures
            r == self@.slides.len(),
    {
        self.slides.len()
    }

    /// The spooled slide at position `k`.
    pub fn slide(&self, k: usize) -> (r: &SpooledSlide)
        requires
            k < self@.slides.len(),
        ensures
            (r.ordinal as nat, r.path@) == self@.slides[k as int],
    {
        &self.slides[k]
    }

    fn finish(&mut self, phase: Phase, kind: StatusKind, message: String, progress: u32) -> (r: Action)
        ensures
            final(self)@ == (JobView {
                phase: phase,
                kind: kind,
                message: message@,
                progress: progress as nat,
                ..old(self)@
            }),
            r matches Action::RemoveWorkspace(w) && w@ == old(self)@.workspace,
    {
        self.phase = phase;
        self.status = ConversionStatus { message, progress, kind };
        Action::RemoveWorkspace(self.workspace.clone())
    }

    /// Takes in what came of the last action and says what to do next.
    pub fn step(&mut self, event: Event) -> (action: Action)
        requires
            old(self)@.wf(),
        ensures
            transition(old(self)@, final(self)@),
            step_spec(old(self)@, event, final(self)@, action),
    {
        let ghost a = self@;
        assert(a.slides.subrange(0, a.slides.len() as int) =~= a.slides);
        match event {
            Event::WorkspaceCreated => {
                if self.phase == Phase::Idle {
                    self.phase = Phase::Rendering;
                    self.status = ConversionStatus {
                        message: String::from_str(MSG_RENDERING),
                        progress: PROGRESS_RENDERING,
                        kind: StatusKind::InProgress,
                    };
                    Action::RenderPages { source: self.source.clone(), dpi: RENDER_DPI }
                } else {
                    Action::Nothing
                }
            },
            Event::PagesRendered(n) => {
                if self.phase == Phase::Rendering {
                    if n == 0 {
                        self.total = 0;
                        let msg = AssemblyError::NoSlides.message();
                        let p = self.status.progress;
                        self.finish(Phase::Failed, StatusKind::Failed, msg, p)
                    } else {
                        proof {
                            lemma_page_progress(0, 0, n as nat);
                        }
                        self.phase = Phase::Spooling;
                        self.total = n;
                        self.status = ConversionStatus {
                            message: page_message_exec(0, n),
                            progress: page_progress_exec(0, n),
                            kind: StatusKind::InProgress,
                        };
                        Action::SavePage { ordinal: 0, path: slide_path(self.workspace.as_str(), 0) }
                    }
                } else {
                    Action::Nothing
                }
            },
            Event::PageSaved => {
                if self.phase == Phase::Spooling && (self.slides.len() as u64) < self.total {
                    let i = self.slides.len() as u64;
                    let path = slide_path(self.workspace.as_str(), i);
                    self.slides.push(SpooledSlide { ordinal: i, path });
                    assert(self@.slides =~= a.slides.push((i as nat, slide_path_spec(a.workspace, i as nat))));
                    assert(a.slides =~= self@.slides.subrange(0, a.slides.len() as int));
                    if i + 1 < self.total {
                        proof {
                            lemma_page_progress(i as nat, (i + 1) as nat, self.total as nat);
                        }
                        self.status = ConversionStatus {
                            message: page_message_exec(i + 1, self.total),
                            progress: page_progress_exec(i + 1, self.total),
                            kind: StatusKind::InProgress,
                        };
                        Action::SavePage { ordinal: i + 1, path: slide_path(self.workspace.as_str(), i + 1) }
                    } else {
                        proof {
                            lemma_page_progress(i as nat, i as nat, self.total as nat);
                        }
                        self.phase = Phase::Assembling;
                        self.status = ConversionStatus {
                            message: String::from_str(MSG_ASSEMBLING),
                            progress: PROGRESS_ASSEMBLING,
                            kind: StatusKind::InProgress,
                        };
                        let script = self.assembly_script();
                        Action::RunScript(script)
                    }
                } else {
                    Action::Nothing
                }
            },
            Event::ScriptFinished { success, stderr } => {
                if self.phase == Phase::Assembling {
                    match assembly_result(success, stderr.as_str()) {
                        Ok(()) => self.finish(
                            Phase::Succeeded,
                            StatusKind::Succeeded,
                            String::from_str(MSG_DONE),
                            PROGRESS_DONE,
                        ),
                        Err(e) => {
                            let msg = e.message();
                            let p = self.status.progress;
                            self.finish(Phase::Failed, StatusKind::Failed, msg, p)
                        },
                    }
                } else {
                    Action::Nothing
                }
            },
            Event::Failed(err) => {
                if !(self.phase == Phase::Succeeded || self.phase == Phase::Failed) {
                    let msg = if self.phase == Phase::Spooling {
                        let mut m = String::from_str(MSG_SAVE);
                        push_decimal(&mut m, self.slides.len() as u128 + 1);
                        push_str(&mut m, MSG_SEPARATOR);
                        let detail = err.message();
                        push_str(&mut m, detail.as_str());
                        m
                    } else {
                        err.message()
                    };
                    let p = self.status.progress;
                    self.finish(Phase::Failed, StatusKind::Failed, msg, p)
                } else {
                    Action::Nothing
                }
            },
        }
    }

    /// The script that assembles the spooled slides, in order, into the destination.
    fn assembly_script(&self) -> (r: String)
        requires
            self@.slides.len() > 0,
        ensures
            r@ == script_text(slide_paths(self@.slides), self@.destination),
    {
        let mut builder = KeynoteBuilder::new();
        let n = self.slides.len();
        let mut k: usize = 0;
        while k < n
            invariant
                n == self.slides@.len(),
                0 <= k <= n,
                builder@ == slide_paths(self@.slides).subrange(0, k as int),
            decreases n - k,
        {
            builder.add_slide(self.slides[k].path.as_str());
            assert(slide_paths(self@.slides).subrange(0, k + 1) =~= slide_paths(
                self@.slides,
            ).subrange(0, k as int).push(self.slides@[k as int].path@));
            k = k + 1;
        }
        assert(slide_paths(self@.slides).subrange(0, n as int) =~= slide_paths(self@.slides));
        match builder.script(self.destination.as_str()) {
            Ok(s) => s,
            Err(_) => String::new(),
        }
    }
}


/// Step `k` of a run: the job went from `trace[k]` to `trace[k + 1]` on
/// `events[k]`, asking for `actions[k]`, as `ConversionJob::step` ensures.
pub open spec fn run_step(trace: Seq<JobView>, events: Seq<Event>, actions: Seq<Action>, k: int) -> bool {
    &&& transition(trace[k], trace[k + 1])
    &&& step_spec(trace[k], events[k], trace[k + 1], actions[k])
}

/// A run of a job from a well-formed state: one state more than events, and
/// every step taken by `ConversionJob::step`.
pub open spec fn is_run(trace: Seq<JobView>, events: Seq<Event>, actions: Seq<Action>) -> bool {
    &&& trace.len() == events.len() + 1
    &&& actions.len() == events.len()
    &&& trace[0].wf()
    &&& forall|k: int| 0 <= k < events.len() ==> #[trigger] run_step(trace, events, actions, k)
}

proof fn lemma_run_between(trace: Seq<JobView>, events: Seq<Event>, actions: Seq<Action>, i: int, j: int)
    requires
        is_run(trace, events, actions),
        0 <= i <= j < trace.len(),
    ensures
        trace[j].wf(),
        trace[i].progress <= trace[j].progress,
        phase_rank(trace[i].phase) <= phase_rank(trace[j].phase),
        phase_rank(trace[i].phase) >= 2 ==> trace[j].total == trace[i].total,
        trace[i].is_terminal() ==> trace[j] == trace[i],
    decreases j,
{
    if j > 0 {
        assert(run_step(trace, events, actions, j - 1));
        if i < j {
            lemma_run_between(trace, events, actions, i, j - 1);
        } else {
            lemma_run_between(trace, events, actions, 0, j - 1);
        }
    }
}

/// Over a run, progress never goes back and stays at or below the assembly
/// mark until success; a run that ends in success ends with progress complete,
/// and one that ends in failure ends below it with the failed status.
pub proof fn lemma_progress_never_decreases(trace: Seq<JobView>, events: Seq<Event>, actions: Seq<Action>)
    requires
        is_run(trace, events, actions),
    ensures
        forall|i: int, j: int|
            0 <= i <= j < trace.len() ==> #[trigger] trace[i].progress <= #[trigger] trace[j].progress,
        forall|k: int|
            0 <= k < trace.len() && #[trigger] trace[k].phase != Phase::Succeeded ==> trace[k].progress
                <= PROGRESS_ASSEMBLING,
        trace.last().phase == Phase::Succeeded ==> trace.last().progress == PROGRESS_DONE
            && trace.last().kind == StatusKind::Succeeded,
        trace.last().phase == Phase::Failed ==> trace.last().progress < PROGRESS_DONE
            && trace.last().kind == StatusKind::Failed,
{
    assert forall|i: int, j: int| 0 <= i <= j < trace.len() implies #[trigger] trace[i].progress
        <= #[trigger] trace[j].progress by {
        lemma_run_between(trace, events, actions, i, j);
    }
    assert forall|k: int|
        0 <= k < trace.len() && #[trigger] trace[k].phase != Phase::Succeeded implies trace[k].progress
            <= PROGRESS_ASSEMBLING by {
        lemma_run_between(trace, events, actions, 0, k);
    }
    lemma_run_between(trace, events, actions, 0, trace.len() - 1);
}

/// A run that succeeds after its document was rendered into `n` pages has
/// spooled exactly `n` slides, with ordinals 0 to `n - 1` in order, each at its
/// own path in the workspace.
pub proof fn lemma_success_spools_every_page(
    trace: Seq<JobView>,
    events: Seq<Event>,
    actions: Seq<Action>,
    k: int,
    n: u64,
)
    requires
        is_run(trace, events, actions),
        0 <= k < events.len(),
        trace[k].phase == Phase::Rendering,
        events[k] == Event::PagesRendered(n),
        trace.last().phase == Phase::Succeeded,
    ensures
        trace.last().slides.len() == n,
        forall|j: int|
            0 <= j < n ==> #[trigger] trace.last().slides[j] == (
                j as nat,
                slide_path_spec(trace.last().workspace, j as nat),
            ),
{
    assert(run_step(trace, events, actions, k));
    lemma_run_between(trace, events, actions, k + 1, trace.len() - 1);
    lemma_run_between(trace, events, actions, 0, trace.len() - 1);
}

/// A run whose document has no page fails with the error for a deck without
/// slides, and never asks for the script to be run.
pub proof fn lemma_no_pages_no_script(trace: Seq<JobView>, events: Seq<Event>, actions: Seq<Action>, k: int)
    requires
        is_run(trace, events, actions),
        0 <= k < events.len(),
        trace[k].phase == Phase::Rendering,
        events[k] == Event::PagesRendered(0),
    ensures
        trace.last().phase == Phase::Failed,
        trace.last().message == AssemblyError::NoSlides.message_spec(),
        forall|j: int| k <= j < actions.len() ==> !(#[trigger] actions[j] is RunScript),
{
    assert(run_step(trace, events, actions, k));
    lemma_run_between(trace, events, actions, k + 1, trace.len() - 1);
    assert forall|j: int| k <= j < actions.len() implies !(#[trigger] actions[j] is RunScript) by {
        assert(run_step(trace, events, actions, j));
        if j > k {
            lemma_run_between(trace, events, actions, k + 1, j);
        }
    }
}

/// Two jobs that stand at the same point of the same conversion: same source,
/// phase, status and page count, and the same pages spooled, in the same
/// order; only their workspaces and destinations may differ.
pub open spec fn same_progress(a: JobView, b: JobView) -> bool {
    &&& a.source == b.source
    &&& a.phase == b.phase
    &&& a.total == b.total
    &&& a.message == b.message
    &&& a.progress == b.progress
    &&& a.kind == b.kind
    &&& a.slides.len() == b.slides.len()
    &&& forall|k: int| 0 <= k < a.slides.len() ==> (#[trigger] a.slides[k]).0 == b.slides[k].0
}

/// Two jobs at the same point that are told the same thing stay at the same
/// point, and are asked to render the same document or save the same page:
/// converting one document twice, to two destinations, yields the same slides.
pub proof fn lemma_same_events_same_slides(
    a1: JobView,
    a2: JobView,
    e: Event,
    b1: JobView,
    b2: JobView,
    act1: Action,
    act2: Action,
)
    requires
        a1.wf(),
        a2.wf(),
        same_progress(a1, a2),
        step_spec(a1, e, b1, act1),
        step_spec(a2, e, b2, act2),
    ensures
        same_progress(b1, b2),
        act1 matches Action::RenderPages { source: s1, dpi: d1 } ==> act2 matches Action::RenderPages {
            source: s2,
            dpi: d2,
        } && s1@ == s2@ && d1 == d2,
        act1 matches Action::SavePage { ordinal: o1, .. } ==> act2 matches Action::SavePage {
            ordinal: o2,
            ..
        } && o1 == o2,
        act1 is RunScript <==> act2 is RunScript,
        act1 is RemoveWorkspace <==> act2 is RemoveWorkspace,
{
    if e is PageSaved && a1.phase == Phase::Spooling && a1.slides.len() < a1.total {
        assert(b1.slides[a1.slides.len() as int].0 == a1.slides.len());
        assert(b2.slides[a2.slides.len() as int].0 == a2.slides.len());
        assert forall|k: int| 0 <= k < b1.slides.len() implies (#[trigger] b1.slides[k]).0
            == b2.slides[k].0 by {
            if k < a1.slides.len() {
                assert(b1.slides[k] == a1.slides[k]);
                assert(b2.slides[k] == a2.slides[k]);
            }
        }
    }
}

/// Jobs started at different instants get different workspaces, so two
/// conversions never share spooled files.
pub proof fn lemma_workspaces_differ(temp_root: Seq<char>, nanos_a: nat, nanos_b: nat)
    requires
        nanos_a != nanos_b,
    ensures
        workspace_dir_spec(temp_root, nanos_a) != workspace_dir_spec(temp_root, nanos_b),
{
    let prefix = temp_root + seq!['/'] + WORKSPACE_PREFIX@;
    let wa = workspace_dir_spec(temp_root, nanos_a);
    let wb = workspace_dir_spec(temp_root, nanos_b);
    if wa == wb {
        assert(wa.subrange(prefix.len() as int, wa.len() as int) =~= decimal(nanos_a));
        assert(wb.subrange(prefix.len() as int, wb.len() as int) =~= decimal(nanos_b));
        crate::text::lemma_decimal_injective(nanos_a, nanos_b);
    }
}

} // verus!
