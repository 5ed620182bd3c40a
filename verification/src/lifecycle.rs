use vstd::prelude::*;

use crate::json::{DensityEntry, StateEntry};
use crate::json::{density_body_of, error_body, error_body_of, state_body_of, stats_body_of};
use crate::json::{density_json, state_json, stats_json};
use crate::model::{Backend, DensityMatrix, QppMessage, Statistics, StateVector};
use crate::numbers::{dec_int_of, dec_of, push_dec_i32, u64_dec};
use crate::parse::{ParseError, describe_text, parse_density, parse_state, parse_stats};
use crate::parse::{is_density_parse, is_density_parse_error, is_state_parse, is_state_parse_error};
use crate::parse::{is_stats_parse, is_stats_parse_error};
use crate::paths::{ArtifactSet, base_of, circuit_path_of, new_job_id, paths_for, state_path_of};
use crate::paths::stats_path_of;
use crate::text::{contains_seq, lemma_concat_contains, str_eq};

verus! {

/// A finished HTTP answer: the status code and the JSON body.
pub struct Response {
    pub status: u16,
    pub body: String,
}

/// Where a job stands.  The happy path runs left to right; every failure
/// after the circuit was written turns to `Cleaning` first, so that the
/// artifacts are removed before anything is answered.
pub enum Phase {
    /// The circuit is being written to its artifact path.
    Writing,
    /// The simulator subprocess is running.
    Running,
    /// The output artifact is being read.
    Reading,
    /// The parsed result is having its numbers rendered; the count of
    /// parsed entries is kept, so that the wire body lists exactly one
    /// member per parsed line.
    Rendering { expected: usize },
    /// The artifacts are being removed; the answer is already fixed.
    Cleaning,
    /// The answer has been handed out.
    Done,
}

/// What the caller must do next for this job.
pub enum Action {
    /// Write `contents` to `path`, creating the file.
    WriteCircuit { path: String, contents: String },
    /// Run the simulator with the given parameters and wait for it.
    RunSimulator { shots: u32, backend: Backend, circuit_path: String, output_base: String },
    /// Read the file at `path` to a string.
    ReadOutput { path: String },
    /// Read each amplitude's components as floating-point numbers and hand
    /// back, per basis index, the six-digit renderings of the real part, the
    /// imaginary part, and the squared modulus.
    RenderState { state: StateVector },
    /// Read each row's entries as floating-point numbers and hand back, per
    /// row, the row's text and the six-digit rendering of the real part of
    /// its diagonal entry.
    RenderDensity { matrix: DensityMatrix },
    /// Remove the three files, ignoring ones that do not exist; failures are
    /// to be logged, never answered.
    RemoveArtifacts { circuit_path: String, state_path: String, stats_path: String },
    /// Answer the request.
    Respond { response: Response },
}

/// What happened to the job's pending action.
#[allow(inconsistent_fields)]
pub enum Event {
    /// The circuit write finished; `error` carries the failure text, if any.
    WriteFinished { error: Option<String> },
    /// The simulator could not be started at all.
    SpawnFailed { error: String },
    /// The simulator terminated, with its exit code (none where a signal
    /// ended it) and its captured standard-error text.
    SimulatorExited { code: Option<i32>, stderr: String },
    /// The output artifact was read, or could not be.
    ReadFinished { result: Result<String, String> },
    /// The state vector's numbers were rendered.
    StateRendered { entries: Vec<StateEntry> },
    /// The density matrix's numbers were rendered.
    DensityRendered { rows: Vec<DensityEntry> },
    /// The artifact removal finished; `error` carries the failure text, if
    /// any, and never changes the answer.
    ArtifactsRemoved { error: Option<String> },
}

/// One job mid-flight.
pub struct JobState {
    pub id: String,
    pub message: QppMessage,
    pub phase: Phase,
    pub response: Option<Response>,
}

impl JobState {
    /// Once cleaning starts the answer is fixed.
    pub open spec fn wf(&self) -> bool {
        self.phase is Cleaning ==> self.response is Some
    }

    /// Which event may answer the pending action of this phase.
    pub open spec fn accepts(&self, ev: Event) -> bool {
        match (self.phase, ev) {
            (Phase::Writing, Event::WriteFinished { .. }) => true,
            (Phase::Running, Event::SpawnFailed { .. }) => true,
            (Phase::Running, Event::SimulatorExited { .. }) => true,
            (Phase::Reading, Event::ReadFinished { .. }) => true,
            (Phase::Rendering { expected }, Event::StateRendered { entries }) => self.message.shots
                == 0 && self.message.backend is SV && entries@.len() == expected,
            (Phase::Rendering { expected }, Event::DensityRendered { rows }) => self.message.shots
                == 0 && self.message.backend is DM && rows@.len() == expected,
            (Phase::Cleaning, Event::ArtifactsRemoved { .. }) => true,
            _ => false,
        }
    }
}

/// How a failed circuit write reads.
pub open spec fn write_failure_text(io: Seq<char>) -> Seq<char> {
    "failed to save source file: "@ + io
}

/// How a failed simulator start reads.
pub open spec fn spawn_failure_text(io: Seq<char>) -> Seq<char> {
    "failed to run program: "@ + io
}

/// How a non-zero simulator exit reads: the code and the captured
/// standard-error text.
pub open spec fn exit_failure_text(code: int, stderr: Seq<char>) -> Seq<char> {
    "simulator exited with code "@ + dec_int_of(code) + ": "@ + stderr
}

/// How a signal-terminated simulator reads.
pub open spec fn signal_failure_text(stderr: Seq<char>) -> Seq<char> {
    "simulator ended without an exit code: "@ + stderr
}

/// How a failed artifact read reads.
pub open spec fn read_failure_text(io: Seq<char>) -> Seq<char> {
    "failed to read simulator output: "@ + io
}

/// How a malformed artifact reads.
pub open spec fn parse_failure_text(e: ParseError) -> Seq<char> {
    "failed to parse simulator output: "@ + describe_text(e)
}

/// A non-zero exit is reported with its code and its standard-error text in
/// the message.
pub proof fn lemma_exit_failure_mentions(code: int, stderr: Seq<char>)
    ensures
        contains_seq(exit_failure_text(code, stderr), dec_int_of(code)),
        contains_seq(exit_failure_text(code, stderr), stderr),
{
    let head = "simulator exited with code "@;
    let text = exit_failure_text(code, stderr);
    lemma_concat_contains(head, dec_int_of(code), ": "@ + stderr);
    assert(head + dec_int_of(code) + (": "@ + stderr) =~= text);
    lemma_concat_contains(head + dec_int_of(code) + ": "@, stderr, Seq::<char>::empty());
    assert((head + dec_int_of(code) + ": "@) + stderr + Seq::<char>::empty() =~= text);
}

/// The command-line arguments the simulator is invoked with: the shot count,
/// the circuit input path, the backend tag, and the output base path.
pub fn simulator_args(shots: u32, backend: Backend, circuit_path: &str, output_base: &str) -> (r:
    Vec<String>)
    ensures
        r@.len() == 8,
        r@[0]@ == "-s"@,
        r@[1]@ == dec_of(shots as nat),
        r@[2]@ == "-f"@,
        r@[3]@ == circuit_path@,
        r@[4]@ == "--simulator"@,
        r@[5]@ == (if backend is SV {
            "sv"@
        } else {
            "dm"@
        }),
        r@[6]@ == "-o"@,
        r@[7]@ == output_base@,
{
    let mut r: Vec<String> = Vec::new();
    r.push(String::from_str("-s"));
    r.push(u64_dec(shots as u64));
    r.push(String::from_str("-f"));
    r.push(String::from_str(circuit_path));
    r.push(String::from_str("--simulator"));
    r.push(String::from_str(backend.tag()));
    r.push(String::from_str("-o"));
    r.push(String::from_str(output_base));
    r
}

/// The move to `Cleaning`: the answer is fixed now, and the action removes
/// all three of the job's artifact paths.
pub open spec fn to_cleaning(
    pre_id: Seq<char>,
    post: JobState,
    act: Action,
    status: u16,
    body: Seq<char>,
) -> bool {
    &&& post.phase is Cleaning
    &&& post.response matches Some(resp) && resp.status == status && resp.body@ == body
    &&& act matches Action::RemoveArtifacts { circuit_path, state_path, stats_path }
        && circuit_path@ == circuit_path_of(pre_id) && state_path@ == state_path_of(pre_id)
        && stats_path@ == stats_path_of(pre_id)
}

/// The whole lifecycle, one move at a time: what the next state and action
/// are for each phase and event.  Every failure after the circuit write
/// turns to `Cleaning` with a fixed error answer; only a write failure
/// answers at once, no artifact existing yet.
pub open spec fn step_rel(pre: JobState, ev: Event, post: JobState, act: Action) -> bool {
    &&& post.id@ == pre.id@
    &&& post.message == pre.message
    &&& match (pre.phase, ev) {
        (Phase::Writing, Event::WriteFinished { error }) => match error {
            Option::None => {
                &&& post.phase is Running
                &&& post.response is None
                &&& act matches Action::RunSimulator { shots, backend, circuit_path, output_base }
                    && shots == pre.message.shots && backend == pre.message.backend
                    && circuit_path@ == circuit_path_of(pre.id@) && output_base@ == base_of(
                    pre.id@,
                )
            },
            Option::Some(io) => {
                &&& post.phase is Done
                &&& act matches Action::Respond { response } && response.status == 500
                    && response.body@ == error_body_of(write_failure_text(io@))
            },
        },
        (Phase::Running, Event::SpawnFailed { error }) => to_cleaning(
            pre.id@,
            post,
            act,
            500,
            error_body_of(spawn_failure_text(error@)),
        ),
        (Phase::Running, Event::SimulatorExited { code, stderr }) => match code {
            Option::Some(c) => if c == 0 {
                &&& post.phase is Reading
                &&& post.response is None
                &&& act matches Action::ReadOutput { path } && path@ == (if pre.message.shots
                    > 0 {
                    stats_path_of(pre.id@)
                } else {
                    state_path_of(pre.id@)
                })
            } else {
                to_cleaning(pre.id@, post, act, 500, error_body_of(exit_failure_text(c as int, stderr@)))
            },
            Option::None => to_cleaning(
                pre.id@,
                post,
                act,
                500,
                error_body_of(signal_failure_text(stderr@)),
            ),
        },
        (Phase::Reading, Event::ReadFinished { result }) => match result {
            Result::Err(io) => to_cleaning(
                pre.id@,
                post,
                act,
                500,
                error_body_of(read_failure_text(io@)),
            ),
            Result::Ok(text) => if pre.message.shots > 0 {
                ||| exists|st: Statistics|
                    #[trigger] is_stats_parse(text@, st) && to_cleaning(
                        pre.id@,
                        post,
                        act,
                        200,
                        stats_body_of(st.memory@),
                    )
                ||| exists|e: ParseError|
                    #[trigger] is_stats_parse_error(text@, e) && to_cleaning(
                        pre.id@,
                        post,
                        act,
                        500,
                        error_body_of(parse_failure_text(e)),
                    )
            } else if pre.message.backend is SV {
                ||| post.response is None && (act matches Action::RenderState { state }
                    && is_state_parse(text@, state) && (post.phase matches Phase::Rendering {
                    expected } && expected == state.bases@.len()))
                ||| exists|e: ParseError|
                    #[trigger] is_state_parse_error(text@, e) && to_cleaning(
                        pre.id@,
                        post,
                        act,
                        500,
                        error_body_of(parse_failure_text(e)),
                    )
            } else {
                ||| post.response is None && (act matches Action::RenderDensity { matrix }
                    && is_density_parse(text@, matrix) && (post.phase matches Phase::Rendering {
                    expected } && expected == matrix.bases@.len()))
                ||| exists|e: ParseError|
                    #[trigger] is_density_parse_error(text@, e) && to_cleaning(
                        pre.id@,
                        post,
                        act,
                        500,
                        error_body_of(parse_failure_text(e)),
                    )
            },
        },
        (Phase::Rendering { expected }, Event::StateRendered { entries }) => to_cleaning(
            pre.id@,
            post,
            act,
            200,
            state_body_of(entries@),
        ) && entries@.len() == expected,
        (Phase::Rendering { expected }, Event::DensityRendered { rows }) => to_cleaning(
            pre.id@,
            post,
            act,
            200,
            density_body_of(rows@),
        ) && rows@.len() == expected,
        (Phase::Cleaning, Event::ArtifactsRemoved { .. }) => {
            &&& post.phase is Done
            &&& post.response is None
            &&& act matches Action::Respond { response } && pre.response == Some(response)
        },
        _ => false,
    }
}

/// Opens a job for a submission: a fresh identifier, and the order to write
/// the circuit text to the job's own input path.
pub fn start_job(message: QppMessage) -> (r: (JobState, Action))
    ensures
        r.0.wf(),
        r.0.phase is Writing,
        r.0.response is None,
        r.0.message == message,
        r.0.id@.len() == 36,
        r.1 matches Action::WriteCircuit { path, contents } && path@ == circuit_path_of(r.0.id@)
            && contents@ == message.qasm@,
{
    let id = new_job_id();
    let paths = paths_for(id.as_str());
    let contents = message.qasm.clone();
    let state = JobState { id, message, phase: Phase::Writing, response: None };
    (state, Action::WriteCircuit { path: paths.circuit_path, contents })
}

/// Moves a job one step: takes what happened to the pending action and
/// decides the next state and action, as `step_rel` lays down.
pub fn step(state: JobState, event: Event) -> (r: (JobState, Action))
    requires
        state.wf(),
        state.accepts(event),
    ensures
        r.0.wf(),
        step_rel(state, event, r.0, r.1),
{
    let JobState { id, message, phase, response } = state;
    let paths: ArtifactSet = paths_for(id.as_str());
    match (phase, event) {
        (Phase::Writing, Event::WriteFinished { error }) => match error {
            Option::None => {
                let args_path = paths.circuit_path;
                let act = Action::RunSimulator {
                    shots: message.shots,
                    backend: message.backend,
                    circuit_path: args_path,
                    output_base: paths.output_base,
                };
                (JobState { id, message, phase: Phase::Running, response: None }, act)
            },
            Option::Some(io) => {
                let body = error_message_around("failed to save source file: ", io.as_str());
                proof {
                    assert(body@ == error_body_of(write_failure_text(io@)));
                }
                let resp = Response { status: 500, body };
                (
                    JobState { id, message, phase: Phase::Done, response: None },
                    Action::Respond { response: resp },
                )
            },
        },
        (Phase::Running, Event::SpawnFailed { error }) => {
            let body = error_message_around("failed to run program: ", error.as_str());
            clean_up(id, message, paths, 500, body)
        },
        (Phase::Running, Event::SimulatorExited { code, stderr }) => match code {
            Option::Some(c) => if c == 0 {
                let path = if message.shots > 0 {
                    paths.stats_path
                } else {
                    paths.state_path
                };
                (
                    JobState { id, message, phase: Phase::Reading, response: None },
                    Action::ReadOutput { path },
                )
            } else {
                let mut msg = String::from_str("simulator exited with code ");
                push_dec_i32(&mut msg, c);
                msg.append(": ");
                msg.append(stderr.as_str());
                proof {
                    assert(msg@ =~= exit_failure_text(c as int, stderr@));
                }
                let body = error_body(msg.as_str());
                clean_up(id, message, paths, 500, body)
            },
            Option::None => {
                let body = error_message_around(
                    "simulator ended without an exit code: ",
                    stderr.as_str(),
                );
                clean_up(id, message, paths, 500, body)
            },
        },
        (Phase::Reading, Event::ReadFinished { result }) => match result {
            Result::Err(io) => {
                let body = error_message_around("failed to read simulator output: ", io.as_str());
                clean_up(id, message, paths, 500, body)
            },
            Result::Ok(text) => {
                if message.shots > 0 {
                    match parse_stats(text.as_str()) {
                        Ok(st) => {
                            let body = stats_json(&st);
                            clean_up(id, message, paths, 200, body)
                        },
                        Err(e) => {
                            let body = parse_error_body(&e);
                            clean_up(id, message, paths, 500, body)
                        },
                    }
                } else {
                    match message.backend {
                        Backend::SV => match parse_state(text.as_str()) {
                            Ok(sv) => {
                                let expected = sv.bases.len();
                                (
                                    JobState {
                                        id,
                                        message,
                                        phase: Phase::Rendering { expected },
                                        response: None,
                                    },
                                    Action::RenderState { state: sv },
                                )
                            },
                            Err(e) => {
                                let body = parse_error_body(&e);
                                clean_up(id, message, paths, 500, body)
                            },
                        },
                        Backend::DM => match parse_density(text.as_str()) {
                            Ok(dm) => {
                                let expected = dm.bases.len();
                                (
                                    JobState {
                                        id,
                                        message,
                                        phase: Phase::Rendering { expected },
                                        response: None,
                                    },
                                    Action::RenderDensity { matrix: dm },
                                )
                            },
                            Err(e) => {
                                let body = parse_error_body(&e);
                                clean_up(id, message, paths, 500, body)
                            },
                        },
                    }
                }
            },
        },
        (Phase::Rendering { expected: _ }, Event::StateRendered { entries }) => {
            let body = state_json(&entries);
            clean_up(id, message, paths, 200, body)
        },
        (Phase::Rendering { expected: _ }, Event::DensityRendered { rows }) => {
            let body = density_json(&rows);
            clean_up(id, message, paths, 200, body)
        },
        (Phase::Cleaning, Event::ArtifactsRemoved { .. }) => {
            // `wf` fixes the answer before cleaning starts, so it is here.
            let resp = match response {
                Option::Some(resp) => resp,
                Option::None => {
                    proof {
                        assert(false);
                    }
                    Response { status: 500, body: String::new() }
                },
            };
            (
                JobState { id, message, phase: Phase::Done, response: None },
                Action::Respond { response: resp },
            )
        },
        // `accepts` admits no other pairing of phase and event.
        _ => {
            proof {
                assert(false);
            }
            let resp = Response { status: 500, body: String::new() };
            (
                JobState { id, message, phase: Phase::Done, response: None },
                Action::Respond { response: resp },
            )
        },
    }
}

/// The error body for a message made of a fixed head and a tail.
fn error_message_around(head: &str, tail: &str) -> (r: String)
    ensures
        r@ == error_body_of(head@ + tail@),
{
    let mut msg = String::from_str(head);
    msg.append(tail);
    error_body(msg.as_str())
}

/// The error body for a malformed artifact.
fn parse_error_body(e: &ParseError) -> (r: String)
    ensures
        r@ == error_body_of(parse_failure_text(*e)),
{
    let mut msg = String::from_str("failed to parse simulator output: ");
    let d = e.describe();
    msg.append(d.as_str());
    error_body(msg.as_str())
}

/// Fixes the answer and orders the artifacts removed.
fn clean_up(id: String, message: QppMessage, paths: ArtifactSet, status: u16, body: String) -> (r: (
    JobState,
    Action,
))
    requires
        paths.is_for(id@),
    ensures
        r.0.wf(),
        r.0.id == id,
        r.0.message == message,
        to_cleaning(id@, r.0, r.1, status, body@),
{
    let resp = Response { status, body };
    let state = JobState { id, message, phase: Phase::Cleaning, response: Some(resp) };
    let act = Action::RemoveArtifacts {
        circuit_path: paths.circuit_path,
        state_path: paths.state_path,
        stats_path: paths.stats_path,
    };
    (state, act)
}

/// An answer is only ever handed out after the artifacts were ordered
/// removed — except for a failed circuit write, where no artifact exists
/// yet.
pub proof fn lemma_respond_only_after_cleanup(
    pre: JobState,
    ev: Event,
    post: JobState,
    act: Action,
)
    requires
        step_rel(pre, ev, post, act),
        act is Respond,
    ensures
        pre.phase is Cleaning || (pre.phase is Writing && ev matches Event::WriteFinished {
            error: Some(_) }),
{
}

/// Whenever cleaning starts, the action removes all three of the job's
/// artifact paths; and the answer handed out afterwards is exactly the one
/// fixed when cleaning started.
pub proof fn lemma_cleanup_covers_artifacts(pre: JobState, ev: Event, post: JobState, act: Action)
    requires
        step_rel(pre, ev, post, act),
        post.phase is Cleaning,
    ensures
        act matches Action::RemoveArtifacts { circuit_path, state_path, stats_path }
            && circuit_path@ == circuit_path_of(pre.id@) && state_path@ == state_path_of(pre.id@)
            && stats_path@ == stats_path_of(pre.id@),
{
}

/// The answer never changes once cleaning has started: whatever the removal
/// reported, the response handed out is the one fixed before.
pub proof fn lemma_cleanup_never_masks(pre: JobState, ev: Event, post: JobState, act: Action)
    requires
        step_rel(pre, ev, post, act),
        pre.phase is Cleaning,
    ensures
        act matches Action::Respond { response } && pre.response == Some(response),
{
}

/// One `State` member per artifact line: across the two moves that render a
/// state vector and serialize it, the 200 answer's body is the `State`
/// object over the rendered entries, and there are exactly as many of them
/// as the parsed artifact has lines — the state vector that was handed out
/// for rendering is the parse of the text that was read.
pub proof fn lemma_state_members_match_parse(
    pre: JobState,
    ev: Event,
    post: JobState,
    act: Action,
    ev2: Event,
    post2: JobState,
    act2: Action,
)
    requires
        step_rel(pre, ev, post, act),
        step_rel(post, ev2, post2, act2),
        act is RenderState,
        ev2 is StateRendered,
    ensures
        post2.response matches Some(resp) && resp.status == 200 && resp.body@ == state_body_of(
            ev2->entries@,
        ),
        ev2->entries@.len() == act->state.bases@.len(),
        ev matches Event::ReadFinished { result } ==> (result matches Ok(text) ==> is_state_parse(
            text@,
            act->state,
        )),
{
}

/// The twin of the state-vector law for the density matrix: one
/// `DensityMatrix` member per parsed row.
pub proof fn lemma_density_members_match_parse(
    pre: JobState,
    ev: Event,
    post: JobState,
    act: Action,
    ev2: Event,
    post2: JobState,
    act2: Action,
)
    requires
        step_rel(pre, ev, post, act),
        step_rel(post, ev2, post2, act2),
        act is RenderDensity,
        ev2 is DensityRendered,
    ensures
        post2.response matches Some(resp) && resp.status == 200 && resp.body@ == density_body_of(
            ev2->rows@,
        ),
        ev2->rows@.len() == act->matrix.bases@.len(),
        ev matches Event::ReadFinished { result } ==> (result matches Ok(text) ==> is_density_parse(
            text@,
            act->matrix,
        )),
{
}

/// A run of the lifecycle: each event moves the machine from one state to
/// the next, with the action it ordered.
pub open spec fn is_run(states: Seq<JobState>, events: Seq<Event>, actions: Seq<Action>) -> bool {
    &&& states.len() == events.len() + 1
    &&& actions.len() == events.len()
    &&& forall|j: int|
        0 <= j < events.len() ==> #[trigger] step_rel(states[j], events[j], states[j + 1], actions[j])
}

/// The action removes all three artifact paths of the job with this
/// identifier.
pub open spec fn removes_all(act: Action, id: Seq<char>) -> bool {
    act matches Action::RemoveArtifacts { circuit_path, state_path, stats_path }
        && circuit_path@ == circuit_path_of(id) && state_path@ == state_path_of(id)
        && stats_path@ == stats_path_of(id)
}

proof fn lemma_step_leaves_writing(pre: JobState, ev: Event, post: JobState, act: Action)
    requires
        step_rel(pre, ev, post, act),
    ensures
        !(post.phase is Writing),
        pre.phase is Cleaning ==> post.phase is Done,
{
}

proof fn lemma_run_id_constant(states: Seq<JobState>, events: Seq<Event>, actions: Seq<Action>, i: int)
    requires
        is_run(states, events, actions),
        0 <= i < states.len(),
    ensures
        states[i].id@ == states[0].id@,
    decreases i,
{
    if i > 0 {
        lemma_run_id_constant(states, events, actions, i - 1);
        let j = i - 1;
        assert(step_rel(states[j], events[j], states[j + 1], actions[j]));
        assert(states[i].id@ == states[i - 1].id@);
    }
}

proof fn lemma_run_cleanup(states: Seq<JobState>, events: Seq<Event>, actions: Seq<Action>, i: int)
    requires
        is_run(states, events, actions),
        states[0].phase is Writing,
        0 <= i < states.len(),
        states[i].phase is Cleaning,
    ensures
        exists|j: int| 0 <= j < i && removes_all(#[trigger] actions[j], states[0].id@),
{
    assert(i > 0);
    let j = i - 1;
    assert(step_rel(states[j], events[j], states[j + 1], actions[j]));
    lemma_step_leaves_writing(states[i - 1], events[i - 1], states[i], actions[i - 1]);
    assert(!(states[i - 1].phase is Cleaning));
    lemma_cleanup_covers_artifacts(states[i - 1], events[i - 1], states[i], actions[i - 1]);
    lemma_run_id_constant(states, events, actions, i - 1);
    assert(removes_all(actions[i - 1], states[0].id@));
}

/// Cleanup precedes every answer: in any run of the lifecycle from a fresh
/// job, by the time the answer is handed out the job's three artifact paths
/// were ordered removed — unless the circuit write itself failed, in which
/// case no artifact was ever created.
pub proof fn lemma_run_cleanup_before_answer(
    states: Seq<JobState>,
    events: Seq<Event>,
    actions: Seq<Action>,
    i: int,
)
    requires
        is_run(states, events, actions),
        states[0].phase is Writing,
        0 <= i < actions.len(),
        actions[i] is Respond,
    ensures
        (exists|j: int| 0 <= j < i && removes_all(#[trigger] actions[j], states[0].id@)) || (i == 0
            && events[0] matches Event::WriteFinished { error: Some(_) }),
{
    assert(step_rel(states[i], events[i], states[i + 1], actions[i]));
    lemma_respond_only_after_cleanup(states[i], events[i], states[i + 1], actions[i]);
    if states[i].phase is Cleaning {
        lemma_run_cleanup(states, events, actions, i);
    } else {
        if i > 0 {
            let j = i - 1;
            assert(step_rel(states[j], events[j], states[j + 1], actions[j]));
            lemma_step_leaves_writing(states[i - 1], events[i - 1], states[i], actions[i - 1]);
            assert(false);
        }
    }
}

/// The decision at the door: only a form-encoded submission is taken;
/// anything else is refused with a 400 answer before any artifact is
/// written.
pub enum IntakeDecision {
    Accept,
    Reject(Response),
}

/// How a request without a content type is answered.
pub open spec fn missing_type_text() -> Seq<char> {
    "content type not specified"@
}

/// How a request with an unsupported content type is answered.
pub open spec fn unsupported_type_text(ct: Seq<char>) -> Seq<char> {
    "content type "@ + ct + " not supported"@
}

/// Screens a submission's content type: only
/// `application/x-www-form-urlencoded` is accepted; everything else is
/// refused with a 400 answer, before any job is opened.
pub fn screen_content_type(content_type: Option<&str>) -> (r: IntakeDecision)
    ensures
        match content_type {
            Option::Some(ct) => if ct@ == "application/x-www-form-urlencoded"@ {
                r is Accept
            } else {
                r matches IntakeDecision::Reject(resp) && resp.status == 400 && resp.body@
                    == error_body_of(unsupported_type_text(ct@))
            },
            Option::None => r matches IntakeDecision::Reject(resp) && resp.status == 400
                && resp.body@ == error_body_of(missing_type_text()),
        },
{
    match content_type {
        Option::Some(ct) => {
            if str_eq(ct, "application/x-www-form-urlencoded") {
                IntakeDecision::Accept
            } else {
                let mut msg = String::from_str("content type ");
                msg.append(ct);
                msg.append(" not supported");
                proof {
                    assert(msg@ =~= unsupported_type_text(ct@));
                }
                let body = error_body(msg.as_str());
                IntakeDecision::Reject(Response { status: 400, body })
            }
        },
        Option::None => {
            let body = error_body("content type not specified");
            IntakeDecision::Reject(Response { status: 400, body })
        },
    }
}

} // verus!
