use qpp_server::json::{DensityEntry, StateEntry, error_body, state_json, stats_json};
use qpp_server::json::density_json;
use qpp_server::lifecycle::{Action, Event, IntakeDecision, JobState, Phase};
use qpp_server::lifecycle::{screen_content_type, simulator_args, start_job, step};
use qpp_server::model::{Backend, QppMessage, Statistics};
use qpp_server::paths::paths_for;

fn message(shots: u32, backend: Backend) -> QppMessage {
    QppMessage { qasm: "OPENQASM 2.0;\nqreg q[1];".to_string(), shots, backend }
}

fn written(state: JobState) -> JobState {
    let (state, action) = step(state, Event::WriteFinished { error: None });
    match action {
        Action::RunSimulator { .. } => {}
        _ => panic!("expected a simulator run"),
    }
    state
}

fn exited_zero(state: JobState) -> (JobState, String) {
    let (state, action) = step(
        state,
        Event::SimulatorExited { code: Some(0), stderr: String::new() },
    );
    let path = match action {
        Action::ReadOutput { path } => path,
        _ => panic!("expected a read"),
    };
    (state, path)
}

#[test]
fn paths_are_deterministic() {
    let p = paths_for("abc");
    assert_eq!(p.circuit_path, "/tmp/abc.qasm");
    assert_eq!(p.state_path, "/tmp/abc.state");
    assert_eq!(p.stats_path, "/tmp/abc.stats");
    assert_eq!(p.output_base, "/tmp/abc");
}

#[test]
fn distinct_ids_have_disjoint_paths() {
    let a = paths_for("a");
    let b = paths_for("b");
    assert_ne!(a.circuit_path, b.circuit_path);
    assert_ne!(a.state_path, b.state_path);
    assert_ne!(a.stats_path, b.stats_path);
    assert_ne!(a.circuit_path, b.state_path);
    assert_ne!(a.circuit_path, b.stats_path);
    assert_ne!(a.state_path, b.stats_path);
    assert_ne!(a.circuit_path, a.state_path);
    assert_ne!(a.circuit_path, a.stats_path);
    assert_ne!(a.state_path, a.stats_path);
}

#[test]
fn job_ids_are_long_random_tokens() {
    let (s1, a1) = start_job(message(0, Backend::SV));
    let (s2, _a2) = start_job(message(0, Backend::SV));
    assert_eq!(s1.id.len(), 36);
    assert_ne!(s1.id, s2.id);
    match a1 {
        Action::WriteCircuit { path, contents } => {
            assert_eq!(path, format!("/tmp/{}.qasm", s1.id));
            assert_eq!(contents, "OPENQASM 2.0;\nqreg q[1];");
        }
        _ => panic!("expected a circuit write"),
    }
}

#[test]
fn simulator_arguments_are_table_driven() {
    let args = simulator_args(100, Backend::DM, "/tmp/x.qasm", "/tmp/x");
    let got: Vec<&str> = args.iter().map(|s| s.as_str()).collect();
    let want = vec!["-s", "100", "-f", "/tmp/x.qasm", "--simulator", "dm", "-o", "/tmp/x"];
    assert_eq!(got, want);
}

#[test]
fn content_type_missing_is_rejected_before_any_job() {
    match screen_content_type(None) {
        IntakeDecision::Reject(resp) => {
            assert_eq!(resp.status, 400);
            assert_eq!(resp.body, "{\"Error\":\"content type not specified\"}");
        }
        IntakeDecision::Accept => panic!("must not accept"),
    }
}

#[test]
fn content_type_unsupported_is_rejected_with_400() {
    match screen_content_type(Some("application/json")) {
        IntakeDecision::Reject(resp) => {
            assert_eq!(resp.status, 400);
            assert_eq!(
                resp.body,
                "{\"Error\":\"content type application/json not supported\"}"
            );
        }
        IntakeDecision::Accept => panic!("must not accept"),
    }
}

#[test]
fn content_type_form_urlencoded_is_accepted() {
    match screen_content_type(Some("application/x-www-form-urlencoded")) {
        IntakeDecision::Accept => {}
        IntakeDecision::Reject(_) => panic!("must accept the form encoding"),
    }
}

#[test]
fn stats_job_runs_to_a_200_answer_after_cleanup() {
    let (state, _action) = start_job(message(100, Backend::SV));
    let id = state.id.clone();
    let state = written(state);
    let (state, path) = exited_zero(state);
    assert_eq!(path, format!("/tmp/{}.stats", id));
    let (state, action) = step(
        state,
        Event::ReadFinished { result: Ok("0 700\n1 324".to_string()) },
    );
    match action {
        Action::RemoveArtifacts { circuit_path, state_path, stats_path } => {
            assert_eq!(circuit_path, format!("/tmp/{}.qasm", id));
            assert_eq!(state_path, format!("/tmp/{}.state", id));
            assert_eq!(stats_path, format!("/tmp/{}.stats", id));
        }
        _ => panic!("cleanup must come before the answer"),
    }
    assert!(matches!(state.phase, Phase::Cleaning));
    let (state, action) = step(state, Event::ArtifactsRemoved { error: None });
    match action {
        Action::Respond { response } => {
            assert_eq!(response.status, 200);
            assert_eq!(response.body, "{\"Memory\":{\"0\":700,\"1\":324}}");
        }
        _ => panic!("expected the answer"),
    }
    assert!(matches!(state.phase, Phase::Done));
}

#[test]
fn nonzero_exit_gives_500_naming_code_and_stderr() {
    let (state, _action) = start_job(message(0, Backend::SV));
    let state = written(state);
    let (state, action) = step(
        state,
        Event::SimulatorExited { code: Some(2), stderr: "boom".to_string() },
    );
    assert!(matches!(action, Action::RemoveArtifacts { .. }));
    let (_state, action) = step(state, Event::ArtifactsRemoved { error: None });
    match action {
        Action::Respond { response } => {
            assert_eq!(response.status, 500);
            assert_eq!(
                response.body,
                "{\"Error\":\"simulator exited with code 2: boom\"}"
            );
            assert!(response.body.contains("2"));
            assert!(response.body.contains("boom"));
        }
        _ => panic!("expected the answer"),
    }
}

#[test]
fn signal_termination_gives_500() {
    let (state, _action) = start_job(message(0, Backend::SV));
    let state = written(state);
    let (state, _action) = step(
        state,
        Event::SimulatorExited { code: None, stderr: "killed".to_string() },
    );
    let (_state, action) = step(state, Event::ArtifactsRemoved { error: None });
    match action {
        Action::Respond { response } => {
            assert_eq!(response.status, 500);
            assert_eq!(
                response.body,
                "{\"Error\":\"simulator ended without an exit code: killed\"}"
            );
        }
        _ => panic!("expected the answer"),
    }
}

#[test]
fn malformed_state_file_gives_parse_error_not_crash() {
    let (state, _action) = start_job(message(0, Backend::SV));
    let state = written(state);
    let (state, _path) = exited_zero(state);
    let (state, action) = step(
        state,
        Event::ReadFinished { result: Ok("0.5\n".to_string()) },
    );
    assert!(matches!(action, Action::RemoveArtifacts { .. }));
    let (_state, action) = step(state, Event::ArtifactsRemoved { error: None });
    match action {
        Action::Respond { response } => {
            assert_eq!(response.status, 500);
            assert_eq!(
                response.body,
                "{\"Error\":\"failed to parse simulator output: output line 1: expected two numbers\"}"
            );
        }
        _ => panic!("expected the answer"),
    }
}

#[test]
fn write_failure_answers_500_without_cleanup() {
    let (state, _action) = start_job(message(0, Backend::SV));
    let (_state, action) = step(
        state,
        Event::WriteFinished { error: Some("disk full".to_string()) },
    );
    match action {
        Action::Respond { response } => {
            assert_eq!(response.status, 500);
            assert_eq!(
                response.body,
                "{\"Error\":\"failed to save source file: disk full\"}"
            );
        }
        _ => panic!("expected the answer"),
    }
}

#[test]
fn cleanup_failure_never_masks_the_result() {
    let (state, _action) = start_job(message(100, Backend::SV));
    let state = written(state);
    let (state, _path) = exited_zero(state);
    let (state, _action) = step(
        state,
        Event::ReadFinished { result: Ok("1 9".to_string()) },
    );
    let (_state, action) = step(
        state,
        Event::ArtifactsRemoved { error: Some("no such file".to_string()) },
    );
    match action {
        Action::Respond { response } => {
            assert_eq!(response.status, 200);
            assert_eq!(response.body, "{\"Memory\":{\"1\":9}}");
        }
        _ => panic!("expected the answer"),
    }
}

#[test]
fn state_vector_pipeline_renders_squared_moduli() {
    let (state, _action) = start_job(message(0, Backend::SV));
    let state = written(state);
    let (state, path) = exited_zero(state);
    assert!(path.ends_with(".state"));
    let (state, action) = step(
        state,
        Event::ReadFinished { result: Ok("0.6 0.8\n1 0".to_string()) },
    );
    let sv = match action {
        Action::RenderState { state } => state,
        _ => panic!("expected a render order"),
    };
    // Render as the runtime does: read the tokens as 32-bit floats and derive
    // each probability as the squared modulus.
    let mut entries: Vec<StateEntry> = Vec::new();
    for a in &sv.bases {
        let c = num::complex::Complex32::new(a.re.parse().unwrap(), a.im.parse().unwrap());
        entries.push(StateEntry {
            real: format!("{:.6}", c.re),
            imaginary: format!("{:.6}", c.im),
            probability: format!("{:.6}", c.norm_sqr()),
        });
    }
    let (state, action) = step(state, Event::StateRendered { entries });
    let (_state, action2) = {
        assert!(matches!(action, Action::RemoveArtifacts { .. }));
        step(state, Event::ArtifactsRemoved { error: None })
    };
    match action2 {
        Action::Respond { response } => {
            assert_eq!(response.status, 200);
            assert_eq!(
                response.body,
                "{\"State\":{\
                 \"0\":{\"Real\":\"0.600000\",\"Imaginary\":\"0.800000\",\"Probability\":\"1.000000\"},\
                 \"1\":{\"Real\":\"1.000000\",\"Imaginary\":\"0.000000\",\"Probability\":\"1.000000\"}}}"
            );
        }
        _ => panic!("expected the answer"),
    }
}

#[test]
fn density_pipeline_renders_diagonal_real_parts() {
    let (state, _action) = start_job(message(0, Backend::DM));
    let state = written(state);
    let (state, _path) = exited_zero(state);
    let (state, action) = step(
        state,
        Event::ReadFinished { result: Ok("0.75 0 0 0\n0 0 0.25 0".to_string()) },
    );
    let dm = match action {
        Action::RenderDensity { matrix } => matrix,
        _ => panic!("expected a render order"),
    };
    let mut rows: Vec<DensityEntry> = Vec::new();
    for (i, row) in dm.bases.iter().enumerate() {
        let complexes: Vec<num::complex::Complex32> = row
            .iter()
            .map(|a| num::complex::Complex32::new(a.re.parse().unwrap(), a.im.parse().unwrap()))
            .collect();
        rows.push(DensityEntry {
            row: format!("{:?}", complexes),
            probability: format!("{:.6}", complexes[i].re),
        });
    }
    let (state, _action) = step(state, Event::DensityRendered { rows });
    let (_state, action) = step(state, Event::ArtifactsRemoved { error: None });
    match action {
        Action::Respond { response } => {
            assert_eq!(response.status, 200);
            assert!(response.body.starts_with("{\"DensityMatrix\":{\"0\":{\"Row\":\""));
            assert!(response.body.contains("\"Probability\":\"0.750000\""));
            assert!(response.body.contains("\"Probability\":\"0.250000\""));
        }
        _ => panic!("expected the answer"),
    }
}

#[test]
fn error_body_escapes_the_message() {
    assert_eq!(error_body("a\"b\\c\nd"), "{\"Error\":\"a\\\"b\\\\c\\nd\"}");
    assert_eq!(error_body("\u{1}"), "{\"Error\":\"\\u0001\"}");
}

#[test]
fn spawn_failure_gives_500_after_cleanup() {
    let (state, _action) = start_job(message(0, Backend::SV));
    let state = written(state);
    let (state, action) = step(
        state,
        Event::SpawnFailed { error: "no such executable".to_string() },
    );
    assert!(matches!(action, Action::RemoveArtifacts { .. }));
    let (_state, action) = step(state, Event::ArtifactsRemoved { error: None });
    match action {
        Action::Respond { response } => {
            assert_eq!(response.status, 500);
            assert_eq!(
                response.body,
                "{\"Error\":\"failed to run program: no such executable\"}"
            );
        }
        _ => panic!("expected the answer"),
    }
}

#[test]
fn read_failure_gives_500_after_cleanup() {
    let (state, _action) = start_job(message(100, Backend::SV));
    let state = written(state);
    let (state, _path) = exited_zero(state);
    let (state, action) = step(
        state,
        Event::ReadFinished { result: Err("permission denied".to_string()) },
    );
    assert!(matches!(action, Action::RemoveArtifacts { .. }));
    let (_state, action) = step(state, Event::ArtifactsRemoved { error: None });
    match action {
        Action::Respond { response } => {
            assert_eq!(response.status, 500);
            assert_eq!(
                response.body,
                "{\"Error\":\"failed to read simulator output: permission denied\"}"
            );
        }
        _ => panic!("expected the answer"),
    }
}

#[test]
fn state_json_lists_every_index_in_order() {
    let mut entries: Vec<StateEntry> = Vec::new();
    for _ in 0..3 {
        entries.push(StateEntry {
            real: "0.000000".to_string(),
            imaginary: "0.000000".to_string(),
            probability: "0.000000".to_string(),
        });
    }
    let body = state_json(&entries);
    assert!(body.contains("\"0\":"));
    assert!(body.contains("\"1\":"));
    assert!(body.contains("\"2\":"));
    assert_eq!(body.matches("\"Probability\"").count(), 3);
}

#[test]
fn stats_json_renders_counts_as_numbers() {
    let st = Statistics { memory: vec![("00".to_string(), 700), ("11".to_string(), 324)] };
    assert_eq!(stats_json(&st), "{\"Memory\":{\"00\":700,\"11\":324}}");
}

#[test]
fn density_json_renders_rows() {
    let rows = vec![DensityEntry { row: "[r]".to_string(), probability: "1.000000".to_string() }];
    assert_eq!(
        density_json(&rows),
        "{\"DensityMatrix\":{\"0\":{\"Row\":\"[r]\",\"Probability\":\"1.000000\"}}}"
    );
}
