use proplet::dispatch::{ends_with, finish, finish_stop, heartbeat, launch, route, Route};
use proplet::messages::{
    completion_report, discovery_message, liveliness_message, namespace_or_default,
    registry_request, BinarySource, DiscoveryMessage, LivelinessMessage, Proplet, RegistryRequest,
    ResultMessage, StartConfig, StartRequest, StopRequest, ValidationError, ALIVE_STATUS,
    CHUNK_TOPIC, DEFAULT_NAMESPACE, DISCOVERY_TOPIC, LIVELINESS_TOPIC, REGISTRY_REQUEST_TOPIC,
    RESULTS_TOPIC, START_TOPIC, STOP_TOPIC,
};
use proplet::name_map::NameMap;
use proplet::registry::TaskRegistry;

fn command(id: &str) -> StartRequest {
    StartRequest {
        id: id.to_string(),
        name: "add".to_string(),
        file: "payload".to_string(),
        checksum: String::new(),
        image_url: String::new(),
        daemon: true,
        cli_args: vec!["--fast".to_string(), "x".to_string()],
        env: Some(vec![("HOME".to_string(), "/".to_string())]),
        inputs: vec![4, 5],
    }
}

#[test]
fn topics_are_those_of_the_control_plane() {
    assert_eq!(START_TOPIC, "control/manager/start");
    assert_eq!(STOP_TOPIC, "control/manager/stop");
    assert_eq!(CHUNK_TOPIC, "registry/server");
    assert_eq!(DISCOVERY_TOPIC, "control/proplet/create");
    assert_eq!(LIVELINESS_TOPIC, "control/proplet/alive");
    assert_eq!(RESULTS_TOPIC, "control/proplet/results");
    assert_eq!(REGISTRY_REQUEST_TOPIC, "registry/proplet");
    assert_eq!(DEFAULT_NAMESPACE, "default");
    assert_eq!(ALIVE_STATUS, "alive");
}

#[test]
fn messages_are_routed_by_the_end_of_their_topic() {
    assert_eq!(route("m/domain/c/channel/control/manager/start"), Route::Start);
    assert_eq!(route("m/domain/c/channel/control/manager/stop"), Route::Stop);
    assert_eq!(route("m/domain/c/channel/registry/server"), Route::Chunk);
    assert_eq!(route("control/manager/start"), Route::Start);
    assert_eq!(route("control/manager/stop"), Route::Stop);
    assert_eq!(route("registry/server"), Route::Chunk);
}

#[test]
fn unknown_topics_are_ignored() {
    assert_eq!(route(""), Route::Ignored);
    assert_eq!(route("m/domain/c/channel/control/proplet/results"), Route::Ignored);
    assert_eq!(route("m/domain/c/channel/registry/proplet"), Route::Ignored);
    assert_eq!(route("control/manager/start/more"), Route::Ignored);
    assert_eq!(route("control/manager/star"), Route::Ignored);
    assert_eq!(route("ontrol/manager/stop"), Route::Ignored);
    assert_eq!(route("registry/server "), Route::Ignored);
    assert_eq!(route("CONTROL/MANAGER/START"), Route::Ignored);
}

#[test]
fn ends_with_looks_at_the_end() {
    assert!(ends_with("abc", "c"));
    assert!(ends_with("abc", "abc"));
    assert!(ends_with("abc", ""));
    assert!(ends_with("", ""));
    assert!(ends_with("gr\u{fc}n/registry/server", "registry/server"));
    assert!(ends_with("topic/gr\u{fc}n", "gr\u{fc}n"));
    assert!(!ends_with("abc", "ab"));
    assert!(!ends_with("abc", "xabc"));
    assert!(!ends_with("", "a"));
    assert!(!ends_with("abc", "abd"));
}

#[test]
fn launching_enters_the_task_and_hands_everything_on() {
    let mut tasks = TaskRegistry::new();
    let config = launch(&mut tasks, command("t-1"), vec![9, 9, 9]);
    assert_eq!(
        config,
        StartConfig {
            id: "t-1".to_string(),
            function_name: "add".to_string(),
            daemon: true,
            wasm_binary: vec![9, 9, 9],
            cli_args: vec!["--fast".to_string(), "x".to_string()],
            env: vec![("HOME".to_string(), "/".to_string())],
            args: vec![4, 5],
        }
    );
    assert!(tasks.is_running("t-1"));
    assert_eq!(tasks.count(), 1);
}

#[test]
fn launching_without_environment_gives_an_empty_one() {
    let mut tasks = TaskRegistry::new();
    let mut request = command("t-2");
    request.env = None;
    request.daemon = false;
    let config = launch(&mut tasks, request, Vec::new());
    assert_eq!(config.env, Vec::new());
    assert!(!config.daemon);
    assert_eq!(config.wasm_binary, Vec::<u8>::new());
}

#[test]
fn a_task_leaves_when_it_ends() {
    let mut tasks = TaskRegistry::new();
    launch(&mut tasks, command("t-1"), Vec::new());
    launch(&mut tasks, command("t-2"), Vec::new());
    finish(&mut tasks, "t-1");
    assert!(!tasks.is_running("t-1"));
    assert!(tasks.is_running("t-2"));
    assert_eq!(tasks.count(), 1);
    finish(&mut tasks, "t-1");
    assert_eq!(tasks.count(), 1);
}

#[test]
fn stopping_a_task_that_is_not_running_is_no_error() {
    let mut tasks = TaskRegistry::new();
    launch(&mut tasks, command("other"), Vec::new());
    assert_eq!(finish_stop(&mut tasks, "ghost", Ok(())), Ok(()));
    assert_eq!(tasks.count(), 1);
    assert!(tasks.is_running("other"));
    assert!(!tasks.remove("ghost"));
    assert_eq!(tasks.count(), 1);
}

#[test]
fn stopping_clears_the_task_even_if_the_runtime_fails() {
    let mut tasks = TaskRegistry::new();
    launch(&mut tasks, command("t-1"), Vec::new());
    assert_eq!(
        finish_stop(&mut tasks, "t-1", Err("runtime is stuck".to_string())),
        Err("runtime is stuck".to_string())
    );
    assert!(!tasks.is_running("t-1"));
    assert_eq!(tasks.count(), 0);
}

#[test]
fn stopping_clears_the_task_when_the_runtime_succeeds() {
    let mut tasks = TaskRegistry::new();
    launch(&mut tasks, command("t-1"), Vec::new());
    assert_eq!(finish_stop(&mut tasks, "t-1", Ok(())), Ok(()));
    assert_eq!(tasks.count(), 0);
}

#[test]
fn the_registry_counts_each_task_once() {
    let mut tasks = TaskRegistry::new();
    assert_eq!(tasks.count(), 0);
    tasks.mark_running("a".to_string());
    tasks.mark_running("b".to_string());
    tasks.mark_running("a".to_string());
    assert_eq!(tasks.count(), 2);
    assert!(tasks.is_running("a"));
    assert!(tasks.is_running("b"));
    assert!(!tasks.is_running("c"));
    assert!(tasks.remove("a"));
    assert!(!tasks.remove("a"));
    assert_eq!(tasks.count(), 1);
    assert!(!tasks.is_running("a"));
}

#[test]
fn the_heartbeat_notes_life_and_load() {
    let mut tasks = TaskRegistry::new();
    tasks.mark_running("a".to_string());
    tasks.mark_running("b".to_string());
    let mut proplet = Proplet::new(42, "proplet-rs".to_string());
    assert!(!proplet.alive);
    assert_eq!(proplet.task_count, 0);
    let message = heartbeat(&mut proplet, &tasks, "client-1", Some("edge"));
    assert_eq!(
        message,
        LivelinessMessage {
            proplet_id: "client-1".to_string(),
            status: "alive".to_string(),
            namespace: "edge".to_string(),
        }
    );
    assert_eq!(
        proplet,
        Proplet { id: 42, name: "proplet-rs".to_string(), alive: true, task_count: 2 }
    );
    tasks.remove("a");
    let again = heartbeat(&mut proplet, &tasks, "client-1", None);
    assert_eq!(again.namespace, "default");
    assert_eq!(proplet.task_count, 1);
    assert_eq!(proplet.id, 42);
}

#[test]
fn set_alive_changes_only_that() {
    let mut proplet = Proplet::new(1, "p".to_string());
    proplet.task_count = 3;
    proplet.set_alive(true);
    assert_eq!(proplet, Proplet { id: 1, name: "p".to_string(), alive: true, task_count: 3 });
    proplet.set_alive(false);
    assert!(!proplet.alive);
}

#[test]
fn announcements_name_the_client_and_its_namespace() {
    assert_eq!(
        discovery_message("client-1", None),
        DiscoveryMessage { proplet_id: "client-1".to_string(), namespace: "default".to_string() }
    );
    assert_eq!(
        discovery_message("client-1", Some("prod")),
        DiscoveryMessage { proplet_id: "client-1".to_string(), namespace: "prod".to_string() }
    );
    assert_eq!(
        liveliness_message("c", Some("")),
        LivelinessMessage {
            proplet_id: "c".to_string(),
            status: "alive".to_string(),
            namespace: String::new(),
        }
    );
    assert_eq!(namespace_or_default(None), "default");
    assert_eq!(namespace_or_default(Some("ns")), "ns");
    assert_eq!(registry_request("app"), RegistryRequest { app_name: "app".to_string() });
}

#[test]
fn a_result_carries_either_the_output_or_the_error() {
    assert_eq!(
        completion_report("t".to_string(), 5, Ok(vec![1, 2])),
        ResultMessage { task_id: "t".to_string(), proplet_id: 5, result: vec![1, 2], error: None }
    );
    assert_eq!(
        completion_report("t".to_string(), 5, Err("trap".to_string())),
        ResultMessage {
            task_id: "t".to_string(),
            proplet_id: 5,
            result: Vec::new(),
            error: Some("trap".to_string()),
        }
    );
    assert_eq!(
        completion_report(String::new(), u128::MAX, Ok(Vec::new())),
        ResultMessage { task_id: String::new(), proplet_id: u128::MAX, result: Vec::new(), error: None }
    );
}

#[test]
fn requests_must_name_their_task() {
    assert_eq!(command("t").validate(), Ok(()));
    assert_eq!(command("").validate(), Err(ValidationError::MissingId));
    assert_eq!(StopRequest { id: "t".to_string() }.validate(), Ok(()));
    assert_eq!(StopRequest { id: String::new() }.validate(), Err(ValidationError::MissingId));
    assert_eq!(ValidationError::MissingId.message(), "task id is required");
}

#[test]
fn the_binary_comes_from_exactly_one_place() {
    let mut request = command("t");
    assert_eq!(request.source(), BinarySource::Inline);
    request.image_url = "app".to_string();
    assert_eq!(request.source(), BinarySource::Inline);
    request.file = String::new();
    assert_eq!(request.source(), BinarySource::Registry);
    request.image_url = String::new();
    assert_eq!(request.source(), BinarySource::Missing);
}

#[test]
fn a_name_map_is_a_map() {
    let mut map: NameMap<u32> = NameMap::new();
    assert_eq!(map.len(), 0);
    assert_eq!(map.get("a"), None);
    assert_eq!(map.find("a"), None);
    map.insert("a".to_string(), 1);
    map.insert("b".to_string(), 2);
    map.insert("a".to_string(), 3);
    assert_eq!(map.len(), 2);
    assert_eq!(map.get("a"), Some(&3));
    assert_eq!(map.get("b"), Some(&2));
    assert!(map.contains("a"));
    assert!(!map.contains("c"));
    let at = map.find("b").unwrap();
    assert_eq!(map.name_at(at), "b");
    assert_eq!(map.value_at(at), &2);
    assert_eq!(map.remove("c"), None);
    assert_eq!(map.remove("a"), Some(3));
    assert_eq!(map.remove("a"), None);
    assert_eq!(map.len(), 1);
    assert_eq!(map.remove_at(0), ("b".to_string(), 2));
    assert_eq!(map.len(), 0);
}

#[test]
fn a_name_map_keeps_names_apart() {
    let mut map: NameMap<usize> = NameMap::new();
    let names = ["", "a", "A", "a ", "aa", "\u{e4}", "a\u{308}"];
    for (i, name) in names.iter().enumerate() {
        map.insert(name.to_string(), i);
    }
    assert_eq!(map.len(), names.len());
    for (i, name) in names.iter().enumerate() {
        assert_eq!(map.get(name), Some(&i));
    }
}
