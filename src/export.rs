//! The export as a sequence of decisions: which file operation to perform next,
//! given the outcome of the previous one. The archive is written to a temporary
//! path beside the output and renamed onto the output only once it is complete, so
//! a failed export never leaves a truncated or partial file at the output path.
use vstd::prelude::*;

use crate::archive::{Archive, Counts, ExportError};
use vstd::string::StringExecFns;

verus! {

/// The temporary path used for an output path: the output path with `.partial`
/// appended, so that it lies in the same directory and never equals it.
pub open spec fn temp_path_of(output: Seq<char>) -> Seq<char> {
    output + ".partial"@
}

/// Where an export stands.
#[derive(Clone, Copy, Debug, PartialEq, Eq, Structural)]
pub enum Phase {
    /// Waiting for the circuit to be read and the archive prepared.
    Reading,
    /// Waiting for the archive to be written to the temporary path.
    Writing,
    /// Waiting for the temporary file to be renamed onto the output path.
    Committing,
    /// Waiting for the temporary file to be removed after a failure.
    Cleaning,
    /// Nothing left to do.
    Finished,
}

/// The outcome of the action last requested.
pub enum Event {
    /// The circuit was read and the archive prepared, or that failed.
    Loaded(Result<Archive, ExportError>),
    /// A file operation succeeded (`true`) or failed (`false`); a write that failed
    /// had created the temporary file.
    Completed(bool),
    /// A file operation failed without changing any file: the temporary file was not
    /// created because a file already stands at its path, or a rename or removal
    /// did not happen.
    Untouched,
}

/// What an event is, for contracts.
pub enum EventView {
    Loaded(Result<(Seq<u8>, Counts), ExportError>),
    Completed(bool),
    Untouched,
}

impl View for Event {
    type V = EventView;

    open spec fn view(&self) -> EventView {
        match self {
            Event::Loaded(Ok(a)) => EventView::Loaded(Ok(a@)),
            Event::Loaded(Err(e)) => EventView::Loaded(Err(*e)),
            Event::Completed(ok) => EventView::Completed(*ok),
            Event::Untouched => EventView::Untouched,
        }
    }
}

/// The operation that the caller is to perform next.
pub enum Action {
    /// Read the circuit at `path` and prepare its archive.
    Read { path: String },
    /// Create `path`, which must not exist yet, and write `bytes` to it.
    WriteTemp { path: String, bytes: Vec<u8> },
    /// Rename `from` onto `to`, replacing `to` atomically.
    Rename { from: String, to: String },
    /// Remove the file at `path`.
    Remove { path: String },
    /// The export is over, with this outcome.
    Finish { outcome: Result<Counts, ExportError> },
}

/// What an action is, for contracts.
pub enum ActionView {
    Read(Seq<char>),
    WriteTemp(Seq<char>, Seq<u8>),
    Rename(Seq<char>, Seq<char>),
    Remove(Seq<char>),
    Finish(Result<Counts, ExportError>),
}

impl View for Action {
    type V = ActionView;

    open spec fn view(&self) -> ActionView {
        match self {
            Action::Read { path } => ActionView::Read(path@),
            Action::WriteTemp { path, bytes } => ActionView::WriteTemp(path@, bytes@),
            Action::Rename { from, to } => ActionView::Rename(from@, to@),
            Action::Remove { path } => ActionView::Remove(path@),
            Action::Finish { outcome } => ActionView::Finish(*outcome),
        }
    }
}

/// The state of an export, for contracts.
pub struct ExporterView {
    pub input: Seq<char>,
    pub output: Seq<char>,
    pub temp: Seq<char>,
    pub phase: Phase,
    pub counts: Counts,
    pub error: Option<ExportError>,
    pub temp_left: bool,
}

/// All counts zero: what an export holds until an archive arrives.
pub open spec fn no_counts() -> Counts {
    Counts {
        primary_constraints: 0,
        secondary_constraints: 0,
        primary_variables: 0,
        secondary_variables: 0,
    }
}

/// The state in which an export from `input` to `output` begins.
pub open spec fn start_state(input: Seq<char>, output: Seq<char>) -> ExporterView {
    ExporterView {
        input,
        output,
        temp: temp_path_of(output),
        phase: Phase::Reading,
        counts: no_counts(),
        error: None,
        temp_left: false,
    }
}

/// The outcome reported once an export is over.
pub open spec fn outcome_of(s: ExporterView) -> Result<Counts, ExportError> {
    match s.error {
        None => Ok(s.counts),
        Some(e) => Err(e),
    }
}

/// The phase after `s` that removes the temporary file because of `e`.
pub open spec fn clean_up(s: ExporterView, e: ExportError) -> (ExporterView, ActionView) {
    (ExporterView { phase: Phase::Cleaning, error: Some(e), ..s }, ActionView::Remove(s.temp))
}

/// The state after `s` that ends the export with `e`, with nothing to clean up.
pub open spec fn give_up(s: ExporterView, e: ExportError) -> (ExporterView, ActionView) {
    (ExporterView { phase: Phase::Finished, error: Some(e), ..s }, ActionView::Finish(Err(e)))
}

/// The next state and action after event `e` in state `s`.
pub open spec fn next(s: ExporterView, e: EventView) -> (ExporterView, ActionView) {
    match s.phase {
        Phase::Reading => match e {
            EventView::Loaded(Ok((bytes, counts))) => (
                ExporterView { phase: Phase::Writing, counts, ..s },
                ActionView::WriteTemp(s.temp, bytes),
            ),
            EventView::Loaded(Err(err)) => give_up(s, err),
            EventView::Completed(_) | EventView::Untouched => give_up(s, ExportError::OutOfOrder),
        },
        Phase::Writing => match e {
            EventView::Completed(true) => (
                ExporterView { phase: Phase::Committing, ..s },
                ActionView::Rename(s.temp, s.output),
            ),
            EventView::Completed(false) => clean_up(s, ExportError::Write),
            EventView::Untouched => give_up(s, ExportError::Write),
            EventView::Loaded(_) => clean_up(s, ExportError::OutOfOrder),
        },
        Phase::Committing => match e {
            EventView::Completed(true) => (
                ExporterView { phase: Phase::Finished, ..s },
                ActionView::Finish(Ok(s.counts)),
            ),
            EventView::Completed(false) | EventView::Untouched => clean_up(
                s,
                ExportError::Commit,
            ),
            EventView::Loaded(_) => clean_up(s, ExportError::OutOfOrder),
        },
        Phase::Cleaning => (
            ExporterView { phase: Phase::Finished, temp_left: !succeeded(e), ..s },
            ActionView::Finish(outcome_of(s)),
        ),
        Phase::Finished => (s, ActionView::Finish(outcome_of(s))),
    }
}

/// Files by path, for stating what an export does to them.
pub type Files = Map<Seq<char>, Seq<u8>>;

/// Whether `f` and `g` agree at path `p`: both lack it, or both hold the same bytes.
pub open spec fn same_at(f: Files, g: Files, p: Seq<char>) -> bool {
    &&& f.contains_key(p) == g.contains_key(p)
    &&& f.contains_key(p) ==> f[p] == g[p]
}

/// Whether the files may be `after` once action `a` was performed on `before` with
/// the outcome that `e` reports. The temporary file is created only where no file
/// stands; once created, a failed write may leave anything in it. A rename replaces
/// its target atomically or not at all.
pub open spec fn performed(before: Files, a: ActionView, e: EventView, after: Files) -> bool {
    match a {
        ActionView::WriteTemp(p, bytes) => if succeeded(e) {
            &&& !before.contains_key(p)
            &&& after == before.insert(p, bytes)
        } else if e == EventView::Untouched {
            after == before
        } else {
            &&& !before.contains_key(p)
            &&& forall|q: Seq<char>| q != p ==> #[trigger] same_at(before, after, q)
        },
        ActionView::Rename(from, to) => if succeeded(e) {
            &&& before.contains_key(from)
            &&& after == before.remove(from).insert(to, before[from])
        } else {
            after == before
        },
        ActionView::Remove(p) => if succeeded(e) {
            after == before.remove(p)
        } else {
            after == before
        },
        _ => after == before,
    }
}

/// Whether an event reports that a file operation succeeded.
pub open spec fn succeeded(e: EventView) -> bool {
    e == EventView::Completed(true)
}

/// The archive that an event hands over, if it hands one over.
pub open spec fn prepared(e: EventView) -> (Seq<u8>, Counts) {
    match e {
        EventView::Loaded(Ok(archive)) => archive,
        _ => (Seq::empty(), no_counts()),
    }
}

/// The state after the first `k` of `events`, from `s`.
pub open spec fn state_after(s: ExporterView, events: Seq<EventView>, k: nat) -> ExporterView
    decreases k,
{
    if k == 0 {
        s
    } else {
        next(state_after(s, events, (k - 1) as nat), events[k - 1]).0
    }
}

/// The action requested after the first `k` of `events`, from `s`, whose first
/// action was `first`.
pub open spec fn action_after(
    s: ExporterView,
    first: ActionView,
    events: Seq<EventView>,
    k: nat,
) -> ActionView {
    if k == 0 {
        first
    } else {
        next(state_after(s, events, (k - 1) as nat), events[k - 1]).1
    }
}

/// Whether `files` is a possible history of the files while an export that began
/// in `s` with action `first` receives `events`: `files[0]` before anything was
/// performed, and `files[k + 1]` once the `k`-th action was performed, with the
/// outcome that `events[k]` reports.
pub open spec fn is_run(
    s: ExporterView,
    first: ActionView,
    events: Seq<EventView>,
    files: Seq<Files>,
) -> bool {
    &&& files.len() == events.len() + 1
    &&& forall|k: int|
        0 <= k < events.len() ==> performed(
            files[k],
            #[trigger] action_after(s, first, events, k as nat),
            events[k],
            files[k + 1],
        )
}

/// What holds of an export in state `s`, whose pending action is `a`, while the files
/// are `f`, given that they were `f0` when it began and that it was handed the
/// archive `bytes` with `counts`.
pub open spec fn tracks(
    s: ExporterView,
    a: ActionView,
    f: Files,
    f0: Files,
    bytes: Seq<u8>,
    counts: Counts,
) -> bool {
    &&& s.wf()
    &&& forall|p: Seq<char>| p != s.output && p != s.temp ==> #[trigger] same_at(f0, f, p)
    &&& match s.phase {
        Phase::Reading => a == ActionView::Read(s.input) && f == f0,
        Phase::Writing => {
            &&& a == ActionView::WriteTemp(s.temp, bytes)
            &&& s.counts == counts
            &&& same_at(f0, f, s.output)
            &&& same_at(f0, f, s.temp)
        },
        Phase::Committing => {
            &&& a == ActionView::Rename(s.temp, s.output)
            &&& s.counts == counts
            &&& !f0.contains_key(s.temp)
            &&& f.contains_key(s.temp)
            &&& f[s.temp] == bytes
            &&& same_at(f0, f, s.output)
        },
        Phase::Cleaning => {
            &&& a == ActionView::Remove(s.temp)
            &&& !f0.contains_key(s.temp)
            &&& same_at(f0, f, s.output)
        },
        Phase::Finished => {
            &&& a == ActionView::Finish(outcome_of(s))
            &&& !s.temp_left ==> same_at(f0, f, s.temp)
            &&& s.error is None ==> {
                &&& f.contains_key(s.output)
                &&& f[s.output] == bytes
                &&& s.counts == counts
            }
            &&& s.error is Some ==> same_at(f0, f, s.output)
        },
    }
}

/// Every step keeps an export well formed, never changes its paths, and never goes
/// back to reading.
pub proof fn lemma_next_wf(s: ExporterView, e: EventView)
    requires
        s.wf(),
    ensures
        next(s, e).0.wf(),
        next(s, e).0.input == s.input,
        next(s, e).0.output == s.output,
        next(s, e).0.temp == s.temp,
        next(s, e).0.phase != Phase::Reading,
{
    lemma_temp_is_not_output(s.output);
}

/// The temporary path is never the output path.
pub proof fn lemma_temp_is_not_output(output: Seq<char>)
    ensures
        temp_path_of(output) != output,
{
    assert(temp_path_of(output).len() == output.len() + 8) by {
        reveal_strlit(".partial");
    }
}

/// The rename onto the output path is requested only right after the archive was
/// written whole to the temporary path.
pub proof fn lemma_rename_follows_complete_write(s: ExporterView, e: EventView)
    requires
        s.wf(),
        next(s, e).1 is Rename,
    ensures
        s.phase == Phase::Writing,
        e == EventView::Completed(true),
        next(s, e).1 == ActionView::Rename(s.temp, s.output),
{
}

/// One step keeps `tracks`: performing the pending action and taking its outcome.
proof fn lemma_tracks_step(
    s: ExporterView,
    a: ActionView,
    f: Files,
    f0: Files,
    bytes: Seq<u8>,
    counts: Counts,
    e: EventView,
    f2: Files,
)
    requires
        tracks(s, a, f, f0, bytes, counts),
        performed(f, a, e, f2),
        s.phase == Phase::Reading ==> prepared(e) == (bytes, counts),
    ensures
        tracks(next(s, e).0, next(s, e).1, f2, f0, bytes, counts),
{
    lemma_next_wf(s, e);
    lemma_temp_is_not_output(s.output);
    assert forall|p: Seq<char>| p != s.output && p != s.temp implies #[trigger] same_at(f, f2, p) by {
        if s.phase == Phase::Writing && !succeeded(e) && e != EventView::Untouched {
            assert(same_at(f, f2, p));
        }
    }
    assert forall|p: Seq<char>| p != s.output && p != s.temp implies #[trigger] same_at(f0, f2, p) by {
        assert(same_at(f0, f, p));
        assert(same_at(f, f2, p));
    }
    if s.phase == Phase::Writing && !succeeded(e) && e != EventView::Untouched {
        assert(same_at(f, f2, s.output));
    }
}

/// Along a run, every state tracks the files, with the archive of the first event.
proof fn lemma_run_tracks(
    input: Seq<char>,
    output: Seq<char>,
    events: Seq<EventView>,
    files: Seq<Files>,
    k: nat,
)
    requires
        is_run(start_state(input, output), ActionView::Read(input), events, files),
        k <= events.len(),
    ensures
        ({
            let s0 = start_state(input, output);
            let (bytes, counts) = prepared(events[0]);
            &&& tracks(
                state_after(s0, events, k),
                action_after(s0, ActionView::Read(input), events, k),
                files[k as int],
                files[0],
                bytes,
                counts,
            )
            &&& state_after(s0, events, k).input == input
            &&& state_after(s0, events, k).output == output
            &&& k > 0 ==> state_after(s0, events, k).phase != Phase::Reading
        }),
    decreases k,
{
    let s0 = start_state(input, output);
    let first = ActionView::Read(input);
    if k > 0 {
        let j = (k - 1) as nat;
        lemma_run_tracks(input, output, events, files, j);
        assert(performed(files[j as int], action_after(s0, first, events, j), events[j as int], files[k as int]));
        lemma_next_wf(state_after(s0, events, j), events[j as int]);
        if j == 0 {
            assert(state_after(s0, events, 0) == s0);
        }
        let (bytes, counts) = prepared(events[0]);
        lemma_tracks_step(
            state_after(s0, events, j),
            action_after(s0, first, events, j),
            files[j as int],
            files[0],
            bytes,
            counts,
            events[j as int],
            files[k as int],
        );
    }
}

/// Whatever the outcomes of the file operations, the output path holds what it held
/// before the export until the export reports success, and from then on holds
/// exactly the archive that was prepared, with the counts reported beside it. An
/// export that fails, at any step, leaves the output path as it found it.
pub proof fn lemma_output_old_or_archive(
    input: Seq<char>,
    output: Seq<char>,
    events: Seq<EventView>,
    files: Seq<Files>,
)
    requires
        is_run(start_state(input, output), ActionView::Read(input), events, files),
    ensures
        forall|k: int|
            0 <= k < files.len() ==> {
                let a = #[trigger] action_after(
                    start_state(input, output),
                    ActionView::Read(input),
                    events,
                    k as nat,
                );
                &&& !(a matches ActionView::Finish(Ok(_))) ==> same_at(files[0], files[k], output)
                &&& a matches ActionView::Finish(Ok(c)) ==> {
                    &&& files[k].contains_key(output)
                    &&& files[k][output] == prepared(events[0]).0
                    &&& c == prepared(events[0]).1
                }
            },
{
    let s0 = start_state(input, output);
    assert forall|k: int| 0 <= k < files.len() implies {
        let a = #[trigger] action_after(s0, ActionView::Read(input), events, k as nat);
        &&& !(a matches ActionView::Finish(Ok(_))) ==> same_at(files[0], files[k], output)
        &&& a matches ActionView::Finish(Ok(c)) ==> {
            &&& files[k].contains_key(output)
            &&& files[k][output] == prepared(events[0]).0
            &&& c == prepared(events[0]).1
        }
    } by {
        lemma_run_tracks(input, output, events, files, k as nat);
    }
}

/// Once an export is over, every path other than the output is as it was before the
/// export: the temporary file is created only where none stood, and is renamed away
/// or removed. The one exception is a failed export whose removal of the temporary
/// file it created also failed, which `temp_left` reports; a successful export never
/// leaves one.
pub proof fn lemma_finished_changes_only_output(
    input: Seq<char>,
    output: Seq<char>,
    events: Seq<EventView>,
    files: Seq<Files>,
)
    requires
        is_run(start_state(input, output), ActionView::Read(input), events, files),
    ensures
        forall|k: int|
            0 <= k < files.len() && (#[trigger] action_after(
                start_state(input, output),
                ActionView::Read(input),
                events,
                k as nat,
            )) is Finish ==> {
                let s = state_after(start_state(input, output), events, k as nat);
                &&& s.temp_left ==> s.error is Some
                &&& forall|p: Seq<char>|
                    p != output && !(p == temp_path_of(output) && s.temp_left) ==> #[trigger] same_at(
                        files[0],
                        files[k],
                        p,
                    )
            },
{
    let s0 = start_state(input, output);
    assert forall|k: int|
        0 <= k < files.len() && (#[trigger] action_after(
            s0,
            ActionView::Read(input),
            events,
            k as nat,
        )) is Finish implies {
        let s = state_after(s0, events, k as nat);
        &&& s.temp_left ==> s.error is Some
        &&& forall|p: Seq<char>|
            p != output && !(p == temp_path_of(output) && s.temp_left) ==> #[trigger] same_at(
                files[0],
                files[k],
                p,
            )
    } by {
        lemma_run_tracks(input, output, events, files, k as nat);
    }
}

/// A circuit that cannot be loaded ends the export before any file is created or
/// modified: whatever arrives afterwards, every file stays as it was.
pub proof fn lemma_failed_load_changes_no_file(
    input: Seq<char>,
    output: Seq<char>,
    err: ExportError,
    events: Seq<EventView>,
    files: Seq<Files>,
)
    requires
        is_run(start_state(input, output), ActionView::Read(input), events, files),
        events.len() > 0,
        events[0] == EventView::Loaded(Err(err)),
    ensures
        forall|k: int| 0 <= k < files.len() ==> #[trigger] files[k] == files[0],
{
    assert forall|k: int| 0 <= k < files.len() implies #[trigger] files[k] == files[0] by {
        lemma_failed_load_prefix(input, output, err, events, files, k as nat);
    }
}

proof fn lemma_failed_load_prefix(
    input: Seq<char>,
    output: Seq<char>,
    err: ExportError,
    events: Seq<EventView>,
    files: Seq<Files>,
    k: nat,
)
    requires
        is_run(start_state(input, output), ActionView::Read(input), events, files),
        events.len() > 0,
        events[0] == EventView::Loaded(Err(err)),
        k <= events.len(),
    ensures
        files[k as int] == files[0],
        k > 0 ==> state_after(start_state(input, output), events, k) == state_after(
            start_state(input, output),
            events,
            1,
        ),
        k > 0 ==> state_after(start_state(input, output), events, k).phase == Phase::Finished,
    decreases k,
{
    let s0 = start_state(input, output);
    let first = ActionView::Read(input);
    if k > 0 {
        let j = (k - 1) as nat;
        lemma_failed_load_prefix(input, output, err, events, files, j);
        assert(state_after(s0, events, 0) == s0);
        assert(performed(files[j as int], action_after(s0, first, events, j), events[j as int], files[k as int]));
    }
}

/// An export in progress.
pub struct Exporter {
    input: String,
    output: String,
    temp: String,
    phase: Phase,
    counts: Counts,
    error: Option<ExportError>,
    temp_left: bool,
}

impl View for Exporter {
    type V = ExporterView;

    closed spec fn view(&self) -> ExporterView {
        ExporterView {
            input: self.input@,
            output: self.output@,
            temp: self.temp@,
            phase: self.phase,
            counts: self.counts,
            error: self.error,
            temp_left: self.temp_left,
        }
    }
}

impl ExporterView {
    /// The temporary path belongs to the output path, and an export that is still
    /// running has failed only once it is cleaning up.
    pub open spec fn wf(self) -> bool {
        &&& self.temp == temp_path_of(self.output)
        &&& (self.phase == Phase::Reading || self.phase == Phase::Writing
            || self.phase == Phase::Committing) ==> self.error is None
        &&& self.phase == Phase::Cleaning ==> self.error is Some
        &&& self.temp_left ==> self.phase == Phase::Finished && self.error is Some
    }
}

impl Exporter {
    /// Begins an export of the circuit at `input` to the archive at `output`; the
    /// first action reads the circuit.
    pub fn start(input: String, output: String) -> (r: (Exporter, Action))
        ensures
            r.0@ == start_state(input@, output@),
            r.1@ == ActionView::Read(input@),
    {
        let mut temp = output.clone();
        temp.append(".partial");
        proof {
            reveal_strlit(".partial");
        }
        let path = input.clone();
        let ex = Exporter {
            input,
            output,
            temp,
            phase: Phase::Reading,
            counts: Counts {
                primary_constraints: 0,
                secondary_constraints: 0,
                primary_variables: 0,
                secondary_variables: 0,
            },
            error: None,
            temp_left: false,
        };
        (ex, Action::Read { path })
    }

    /// The path of the circuit.
    pub fn input(&self) -> (r: &String)
        ensures
            r@ == self@.input,
    {
        &self.input
    }

    /// The path of the archive.
    pub fn output(&self) -> (r: &String)
        ensures
            r@ == self@.output,
    {
        &self.output
    }

    /// The path of the temporary file.
    pub fn temp(&self) -> (r: &String)
        ensures
            r@ == self@.temp,
    {
        &self.temp
    }

    /// Whether the export failed and could not remove the temporary file it created.
    pub fn temp_left(&self) -> (r: bool)
        ensures
            r == self@.temp_left,
    {
        self.temp_left
    }

    /// Where the export stands.
    pub fn phase(&self) -> (r: Phase)
        ensures
            r == self@.phase,
    {
        self.phase
    }

    fn outcome(&self) -> (r: Result<Counts, ExportError>)
        ensures
            r == outcome_of(self@),
    {
        match self.error {
            None => Ok(self.counts),
            Some(e) => Err(e),
        }
    }

    fn clean_up(&mut self, e: ExportError) -> (r: Action)
        ensures
            (final(self)@, r@) == clean_up(old(self)@, e),
    {
        self.phase = Phase::Cleaning;
        self.error = Some(e);
        Action::Remove { path: self.temp.clone() }
    }

    fn give_up(&mut self, e: ExportError) -> (r: Action)
        ensures
            (final(self)@, r@) == give_up(old(self)@, e),
    {
        self.phase = Phase::Finished;
        self.error = Some(e);
        Action::Finish { outcome: Err(e) }
    }

    /// Takes the outcome of the action last requested and returns the next one.
    pub fn advance(&mut self, event: Event) -> (r: Action)
        ensures
            (final(self)@, r@) == next(old(self)@, event@),
    {
        match self.phase {
            Phase::Reading => match event {
                Event::Loaded(Ok(archive)) => {
                    self.phase = Phase::Writing;
                    self.counts = archive.counts;
                    Action::WriteTemp { path: self.temp.clone(), bytes: archive.bytes }
                },
                Event::Loaded(Err(err)) => self.give_up(err),
                Event::Completed(_) | Event::Untouched => self.give_up(ExportError::OutOfOrder),
            },
            Phase::Writing => match event {
                Event::Completed(true) => {
                    self.phase = Phase::Committing;
                    Action::Rename { from: self.temp.clone(), to: self.output.clone() }
                },
                Event::Completed(false) => self.clean_up(ExportError::Write),
                Event::Untouched => self.give_up(ExportError::Write),
                Event::Loaded(_) => self.clean_up(ExportError::OutOfOrder),
            },
            Phase::Committing => match event {
                Event::Completed(true) => {
                    self.phase = Phase::Finished;
                    Action::Finish { outcome: Ok(self.counts) }
                },
                Event::Completed(false) | Event::Untouched => self.clean_up(ExportError::Commit),
                Event::Loaded(_) => self.clean_up(ExportError::OutOfOrder),
            },
            Phase::Cleaning => {
                self.phase = Phase::Finished;
                self.temp_left = !matches!(event, Event::Completed(true));
                Action::Finish { outcome: self.outcome() }
            },
            Phase::Finished => Action::Finish { outcome: self.outcome() },
        }
    }
}

} // verus!
