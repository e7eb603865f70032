use aes_gcm::aead::Aead;
use aes_gcm::{Aes256Gcm, Key, KeyInit, Nonce};
use base64::Engine;
use proplet::assembler::{Chunk, ChunkAssembler};
use proplet::crypto::{checksum, WorkloadKey};
use proplet::intake::{POLL_INTERVAL, REGISTRY_TIMEOUT};
use proplet::messages::{
    RegistryRequest, ResultMessage, StartConfig, StartError, StartRequest, ValidationError,
};
use proplet::pipeline::{step, StartAction, StartEvent, StartState};
use proplet::registry::TaskRegistry;

const PIPELINE_KEY: [u8; 32] = [0x33; 32];
const AGENT: u128 = 0x1234_5678_9abc_def0;

struct Agent {
    key: WorkloadKey,
    assembler: ChunkAssembler,
    tasks: TaskRegistry,
}

fn agent() -> Agent {
    Agent {
        key: WorkloadKey::from_bytes(PIPELINE_KEY.to_vec()).ok().unwrap(),
        assembler: ChunkAssembler::new(),
        tasks: TaskRegistry::new(),
    }
}

fn go(agent: &mut Agent, state: StartState, event: StartEvent) -> (StartState, StartAction) {
    step(state, event, &agent.key, AGENT, &mut agent.assembler, &mut agent.tasks)
}

fn pipeline_seal(plain: &[u8]) -> Vec<u8> {
    let cipher = Aes256Gcm::new(Key::<Aes256Gcm>::from_slice(&PIPELINE_KEY));
    let nonce = [0x44u8; 12];
    let mut sealed = nonce.to_vec();
    sealed.extend(cipher.encrypt(Nonce::from_slice(&nonce), plain).unwrap());
    sealed
}

fn order(id: &str, file: &[u8], sum: &str, image_url: &str) -> StartRequest {
    StartRequest {
        id: id.to_string(),
        name: "main".to_string(),
        file: if file.is_empty() {
            String::new()
        } else {
            base64::engine::general_purpose::STANDARD.encode(file)
        },
        checksum: sum.to_string(),
        image_url: image_url.to_string(),
        daemon: false,
        cli_args: vec!["a".to_string()],
        env: None,
        inputs: vec![1],
    }
}

fn config_for(id: &str, wasm: &[u8]) -> StartConfig {
    StartConfig {
        id: id.to_string(),
        function_name: "main".to_string(),
        daemon: false,
        wasm_binary: wasm.to_vec(),
        cli_args: vec!["a".to_string()],
        env: Vec::new(),
        args: vec![1],
    }
}

#[test]
fn an_inline_command_runs_and_publishes_one_result() {
    let mut agent = agent();
    let wasm = b"\0asm module".to_vec();
    let sealed = pipeline_seal(&wasm);
    let request = order("t-1", &sealed, &checksum(&sealed), "");

    let (state, action) = go(&mut agent, StartState::Received(request), StartEvent::Tick { now: 0 });
    assert_eq!(action, StartAction::Invoke(config_for("t-1", &wasm)));
    assert_eq!(state, StartState::Running { task_id: "t-1".to_string() });
    assert!(agent.tasks.is_running("t-1"));

    let (state, action) = go(&mut agent, state, StartEvent::Completed(Ok(vec![42])));
    assert_eq!(
        action,
        StartAction::Publish(ResultMessage {
            task_id: "t-1".to_string(),
            proplet_id: AGENT,
            result: vec![42],
            error: None,
        })
    );
    assert_eq!(state, StartState::Reporting { task_id: "t-1".to_string() });
    assert!(agent.tasks.is_running("t-1"));

    let (state, action) = go(&mut agent, state, StartEvent::Published);
    assert_eq!(action, StartAction::Nothing);
    assert_eq!(state, StartState::Done);
    assert!(!agent.tasks.is_running("t-1"));
    assert_eq!(agent.tasks.count(), 0);
}

#[test]
fn a_task_that_fails_is_reported_with_its_error() {
    let mut agent = agent();
    let request = order("t-2", &pipeline_seal(b"m"), "", "");
    let (state, _) = go(&mut agent, StartState::Received(request), StartEvent::Tick { now: 0 });
    let (state, action) = go(&mut agent, state, StartEvent::Completed(Err("trap".to_string())));
    assert_eq!(
        action,
        StartAction::Publish(ResultMessage {
            task_id: "t-2".to_string(),
            proplet_id: AGENT,
            result: Vec::new(),
            error: Some("trap".to_string()),
        })
    );
    let (state, _) = go(&mut agent, state, StartEvent::Published);
    assert_eq!(state, StartState::Done);
    assert_eq!(agent.tasks.count(), 0);
}

#[test]
fn a_wrong_checksum_is_reported_once_and_nothing_runs() {
    let mut agent = agent();
    let sealed = pipeline_seal(b"module");
    let wrong = "ab".repeat(32);
    let request = order("t-3", &sealed, &wrong, "");
    let (state, action) = go(&mut agent, StartState::Received(request), StartEvent::Tick { now: 0 });
    match action {
        StartAction::Report { report, failure } => {
            assert_eq!(report.task_id, "t-3");
            assert_eq!(report.proplet_id, AGENT);
            assert_eq!(report.result, Vec::<u8>::new());
            let text = report.error.unwrap();
            assert!(text.contains("Checksum mismatch"));
            assert!(text.contains(&wrong));
            assert!(text.contains(&checksum(&sealed)));
            assert_eq!(failure.message(), "Checksum mismatch");
        }
        other => panic!("told to {:?}", other),
    }
    assert_eq!(state, StartState::Done);
    assert_eq!(agent.tasks.count(), 0);
    for event in [
        StartEvent::Tick { now: 1 },
        StartEvent::Completed(Ok(Vec::new())),
        StartEvent::Published,
    ] {
        assert_eq!(go(&mut agent, StartState::Done, event), (StartState::Done, StartAction::Nothing));
    }
}

#[test]
fn a_command_without_id_is_dropped_without_a_result() {
    let mut agent = agent();
    let request = order("", &pipeline_seal(b"m"), "", "");
    let (state, action) = go(&mut agent, StartState::Received(request), StartEvent::Tick { now: 0 });
    assert_eq!(action, StartAction::Drop(ValidationError::MissingId));
    assert_eq!(state, StartState::Done);
    assert_eq!(agent.tasks.count(), 0);
}

#[test]
fn a_command_without_binary_is_reported() {
    let mut agent = agent();
    let request = order("t-4", b"", "", "");
    let (state, action) = go(&mut agent, StartState::Received(request), StartEvent::Tick { now: 0 });
    assert_eq!(
        action,
        StartAction::Report {
            report: ResultMessage {
                task_id: "t-4".to_string(),
                proplet_id: AGENT,
                result: Vec::new(),
                error: Some("No wasm binary or image URL provided".to_string()),
            },
            failure: StartError::NoBinary,
        }
    );
    assert_eq!(state, StartState::Done);
}

#[test]
fn a_fetched_binary_is_waited_for_until_its_chunks_are_in() {
    let mut agent = agent();
    let wasm = b"fetched module".to_vec();
    let sealed = pipeline_seal(&wasm);
    let sum = checksum(&sealed);
    let request = order("t-5", b"", "", "app");

    let (state, action) =
        go(&mut agent, StartState::Received(request.clone()), StartEvent::Tick { now: 10 });
    assert_eq!(action, StartAction::Request(RegistryRequest { app_name: "app".to_string() }));
    assert_eq!(state, StartState::Requested(request.clone()));

    let (state, action) = go(&mut agent, state, StartEvent::Tick { now: 500 });
    assert_eq!(action, StartAction::Pause);
    assert_eq!(state, StartState::Waiting { request: request.clone(), started: 500 });

    let half = sealed.len() / 2;
    let first = Chunk {
        app_name: "app".to_string(),
        chunk_idx: 1,
        total_chunks: 2,
        checksum: sum.clone(),
        data: sealed[half..].to_vec(),
    };
    let second = Chunk {
        app_name: "app".to_string(),
        chunk_idx: 0,
        total_chunks: 2,
        checksum: sum.clone(),
        data: sealed[..half].to_vec(),
    };
    assert_eq!(agent.assembler.ingest(first, 600), Ok(()));
    let (state, action) = go(&mut agent, state, StartEvent::Tick { now: 500 + POLL_INTERVAL });
    assert_eq!(action, StartAction::Pause);
    assert_eq!(agent.tasks.count(), 0);

    assert_eq!(agent.assembler.ingest(second, 700), Ok(()));
    let (state, action) = go(&mut agent, state, StartEvent::Tick { now: 500 + 2 * POLL_INTERVAL });
    assert_eq!(action, StartAction::Invoke(config_for("t-5", &wasm)));
    assert_eq!(state, StartState::Running { task_id: "t-5".to_string() });
    assert!(agent.tasks.is_running("t-5"));
    assert!(!agent.assembler.contains("app"));
}

#[test]
fn chunks_that_never_come_end_in_one_timeout_report() {
    let mut agent = agent();
    let request = order("t-6", b"", "", "app");
    let (mut state, action) =
        go(&mut agent, StartState::Received(request), StartEvent::Tick { now: 0 });
    assert!(matches!(action, StartAction::Request(_)));

    let begun = 1_000u64;
    let mut now = begun;
    let mut pauses = 0;
    let mut reports = Vec::new();
    while state != StartState::Done {
        let (next, action) = go(&mut agent, state, StartEvent::Tick { now });
        state = next;
        match action {
            StartAction::Pause => {
                pauses += 1;
                now += POLL_INTERVAL;
            }
            StartAction::Report { report, failure } => {
                assert_eq!(failure, StartError::RegistryTimeout);
                reports.push(report);
            }
            other => panic!("told to {:?}", other),
        }
    }
    assert_eq!(pauses, 61);
    assert!(now - begun > REGISTRY_TIMEOUT);
    assert_eq!(
        reports,
        vec![ResultMessage {
            task_id: "t-6".to_string(),
            proplet_id: AGENT,
            result: Vec::new(),
            error: Some("Timeout waiting for binary chunks".to_string()),
        }]
    );
    assert_eq!(agent.tasks.count(), 0);
}

#[test]
fn the_wait_begins_when_the_request_has_gone_out() {
    let mut agent = agent();
    let request = order("t-7", b"", "", "app");
    let (state, _) =
        go(&mut agent, StartState::Received(request.clone()), StartEvent::Tick { now: 0 });
    let late = 10 * REGISTRY_TIMEOUT;
    let (state, action) = go(&mut agent, state, StartEvent::Tick { now: late });
    assert_eq!(action, StartAction::Pause);
    assert_eq!(state, StartState::Waiting { request, started: late });
    let (state, action) = go(&mut agent, state, StartEvent::Tick { now: late + REGISTRY_TIMEOUT });
    assert_eq!(action, StartAction::Pause);
    let (state, action) =
        go(&mut agent, state, StartEvent::Tick { now: late + REGISTRY_TIMEOUT + 1 });
    assert!(matches!(action, StartAction::Report { .. }));
    assert_eq!(state, StartState::Done);
}

#[test]
fn a_fetched_binary_with_a_wrong_checksum_is_reported() {
    let mut agent = agent();
    let sealed = pipeline_seal(b"module");
    let request = order("t-8", b"", "", "app");
    let (state, _) = go(&mut agent, StartState::Received(request), StartEvent::Tick { now: 0 });
    let chunk = Chunk {
        app_name: "app".to_string(),
        chunk_idx: 0,
        total_chunks: 1,
        checksum: "wrong".to_string(),
        data: sealed,
    };
    assert_eq!(agent.assembler.ingest(chunk, 0), Ok(()));
    let (state, action) = go(&mut agent, state, StartEvent::Tick { now: 1 });
    match action {
        StartAction::Report { report, failure } => {
            assert_eq!(failure, StartError::ReassemblyChecksum);
            assert_eq!(report.error, Some("Checksum mismatch during reassembly".to_string()));
        }
        other => panic!("told to {:?}", other),
    }
    assert_eq!(state, StartState::Done);
    assert!(!agent.assembler.contains("app"));
    assert_eq!(agent.tasks.count(), 0);
}

#[test]
fn events_out_of_turn_change_nothing() {
    let mut agent = agent();
    let request = order("t-9", &pipeline_seal(b"m"), "", "");
    let received = StartState::Received(request.clone());
    assert_eq!(
        go(&mut agent, received.clone(), StartEvent::Published),
        (received.clone(), StartAction::Nothing)
    );
    assert_eq!(
        go(&mut agent, received.clone(), StartEvent::Completed(Ok(Vec::new()))),
        (received, StartAction::Nothing)
    );
    let running = StartState::Running { task_id: "t-9".to_string() };
    assert_eq!(
        go(&mut agent, running.clone(), StartEvent::Tick { now: 5 }),
        (running.clone(), StartAction::Nothing)
    );
    assert_eq!(go(&mut agent, running.clone(), StartEvent::Published), (running, StartAction::Nothing));
    let reporting = StartState::Reporting { task_id: "t-9".to_string() };
    assert_eq!(
        go(&mut agent, reporting.clone(), StartEvent::Tick { now: 5 }),
        (reporting, StartAction::Nothing)
    );
    assert_eq!(agent.tasks.count(), 0);
    assert_eq!(agent.assembler.len(), 0);
}

#[test]
fn two_tasks_run_side_by_side() {
    let mut agent = agent();
    let (a, _) = go(
        &mut agent,
        StartState::Received(order("a", &pipeline_seal(b"1"), "", "")),
        StartEvent::Tick { now: 0 },
    );
    let (b, _) = go(
        &mut agent,
        StartState::Received(order("b", &pipeline_seal(b"2"), "", "")),
        StartEvent::Tick { now: 0 },
    );
    assert_eq!(agent.tasks.count(), 2);
    let (b, _) = go(&mut agent, b, StartEvent::Completed(Ok(Vec::new())));
    let (_, _) = go(&mut agent, b, StartEvent::Published);
    assert_eq!(agent.tasks.count(), 1);
    assert!(agent.tasks.is_running("a"));
    let (a, _) = go(&mut agent, a, StartEvent::Completed(Ok(Vec::new())));
    let (_, _) = go(&mut agent, a, StartEvent::Published);
    assert_eq!(agent.tasks.count(), 0);
}
