use lodestone_core::error::ErrorKind;
use lodestone_core::registry::{CommandDispatch, Registry, State};
use lodestone_core::request::{create_instance, create_instance_with_uuid, parse_create_request, CreateRequest, Field};

fn text(s: &str) -> Field<String> {
    Field::Present(s.to_string())
}

fn request(name: &str, port: u64) -> CreateRequest {
    CreateRequest {
        game_type: text("minecraft"),
        name: text(name),
        port: Field::Present(port),
        version: text("1.20.1"),
        flavour: text("vanilla"),
        description: Field::Absent,
        fabric_loader_version: Field::Absent,
        fabric_installer_version: Field::Absent,
        min_ram: Field::Absent,
        max_ram: Field::Absent,
        auto_start: Field::Absent,
        restart_on_crash: Field::Absent,
        start_on_connection: Field::Absent,
        timeout_last_left: Field::Absent,
        timeout_no_activity: Field::Absent,
        backup_period: Field::Absent,
    }
}

fn instances_dir() -> Vec<String> {
    vec!["srv".to_string(), "instances".to_string()]
}

#[test]
fn empty_registry_accepts_valid_request() {
    let mut reg = Registry::new();
    let id = create_instance(&mut reg, &request("first", 1), &instances_dir(), 0).unwrap();
    assert_eq!(id.len(), 36);
    assert_eq!(reg.len(), 1);
}

#[test]
fn create_stores_sanitized_name_and_directory() {
    let mut reg = Registry::new();
    let id = create_instance(&mut reg, &request("My Server!", 25565), &instances_dir(), 7).unwrap();
    assert!(!id.is_empty());
    let expected = sanitize_filename::sanitize("My Server!");
    let info = reg.get(&id).unwrap();
    assert_eq!(info.name, expected);
    assert_eq!(info.port, 25565);
    assert_eq!(info.path, vec!["srv".to_string(), "instances".to_string(), expected.clone()]);
    assert_eq!(info.state, State::Stopped);
    assert_eq!(info.uuid, id);
}

#[test]
fn second_create_with_same_port_is_refused() {
    let mut reg = Registry::new();
    create_instance(&mut reg, &request("My Server!", 25565), &instances_dir(), 1).unwrap();
    let e = create_instance(&mut reg, &request("Other", 25565), &instances_dir(), 2).unwrap_err();
    assert_eq!(e.kind, ErrorKind::MalformedRequest);
    assert_eq!(e.detail, "Instance with port 25565 already exists");
    assert_eq!(reg.len(), 1);
}

#[test]
fn second_create_with_same_name_is_refused() {
    let mut reg = Registry::new();
    create_instance(&mut reg, &request("alpha", 25565), &instances_dir(), 1).unwrap();
    let e = create_instance(&mut reg, &request("al/pha", 25566), &instances_dir(), 2).unwrap_err();
    assert_eq!(e.kind, ErrorKind::MalformedRequest);
    assert_eq!(e.detail, "Instance with name alpha already exists");
    assert_eq!(reg.len(), 1);
}

#[test]
fn duplicate_identifier_is_refused() {
    let mut reg = Registry::new();
    create_instance_with_uuid(&mut reg, &request("a", 1), "id".to_string(), &instances_dir(), 1).unwrap();
    let e = create_instance_with_uuid(&mut reg, &request("b", 2), "id".to_string(), &instances_dir(), 1).unwrap_err();
    assert_eq!(e.kind, ErrorKind::MalformedRequest);
}

#[test]
fn missing_and_mistyped_fields_are_malformed() {
    let mut r = request("a", 1);
    r.game_type = Field::Absent;
    assert_eq!(parse_create_request(&r, "u".to_string(), &instances_dir(), 0).unwrap_err().detail, "Json must contain type");
    let mut r = request("a", 1);
    r.name = Field::Mistyped;
    assert_eq!(parse_create_request(&r, "u".to_string(), &instances_dir(), 0).unwrap_err().detail, "Name must be string");
    let mut r = request("a", 1);
    r.port = Field::Mistyped;
    assert_eq!(parse_create_request(&r, "u".to_string(), &instances_dir(), 0).unwrap_err().detail, "Port must be integer");
    let mut r = request("a", 1);
    r.version = Field::Absent;
    assert_eq!(parse_create_request(&r, "u".to_string(), &instances_dir(), 0).unwrap_err().kind, ErrorKind::MalformedRequest);
    let mut r = request("a", 1);
    r.flavour = Field::Mistyped;
    assert_eq!(parse_create_request(&r, "u".to_string(), &instances_dir(), 0).unwrap_err().kind, ErrorKind::MalformedRequest);
}

#[test]
fn empty_name_after_sanitizing_is_refused() {
    let e = parse_create_request(&request("///", 1), "u".to_string(), &instances_dir(), 0).unwrap_err();
    assert_eq!(e.kind, ErrorKind::MalformedRequest);
    assert_eq!(e.detail, "Name must not be empty");
    let e = parse_create_request(&request("..", 1), "u".to_string(), &instances_dir(), 0).unwrap_err();
    assert_eq!(e.kind, ErrorKind::MalformedRequest);
}

#[test]
fn unknown_game_type_is_unsupported() {
    let mut r = request("a", 1);
    r.game_type = text("terraria");
    assert_eq!(parse_create_request(&r, "u".to_string(), &instances_dir(), 0).unwrap_err().kind, ErrorKind::Unsupported);
    let mut r = request("a", 1);
    r.game_type = text("MineCraft");
    assert!(parse_create_request(&r, "u".to_string(), &instances_dir(), 0).is_ok());
}

#[test]
fn optional_fields_take_defaults() {
    let info = parse_create_request(&request("a", 70000), "u".to_string(), &instances_dir(), 9).unwrap();
    assert_eq!(info.runtime.min_ram, 1024);
    assert_eq!(info.runtime.max_ram, 2048);
    assert!(!info.runtime.auto_start);
    assert_eq!(info.runtime.backup_period, None);
    assert_eq!(info.description, "Pizza time");
    assert_eq!(info.port, 70000u64 as u32);
    assert_eq!(info.creation_time, 9);
    let mut r = request("a", 1);
    r.min_ram = Field::Present(4096);
    r.restart_on_crash = Field::Present(true);
    r.backup_period = Field::Present(60);
    r.description = text("hello");
    let info = parse_create_request(&r, "u".to_string(), &instances_dir(), 0).unwrap();
    assert_eq!(info.runtime.min_ram, 4096);
    assert!(info.runtime.restart_on_crash);
    assert_eq!(info.runtime.backup_period, Some(60));
    assert_eq!(info.description, "hello");
}

fn registry_with(names: &[(&str, u64, u64)]) -> (Registry, Vec<String>) {
    let mut reg = Registry::new();
    let mut ids = vec![];
    for (i, (n, p, t)) in names.iter().enumerate() {
        ids.push(create_instance_with_uuid(&mut reg, &request(n, *p), format!("id{}", i), &instances_dir(), *t).unwrap());
    }
    (reg, ids)
}

#[test]
fn list_is_ordered_by_creation_time() {
    let (reg, _) = registry_with(&[("c", 3, 30), ("a", 1, 10), ("b", 2, 20), ("d", 4, 10)]);
    let list = reg.list_instance();
    let names: Vec<&str> = list.iter().map(|i| i.name.as_str()).collect();
    assert_eq!(names, vec!["a", "d", "b", "c"]);
}

#[test]
fn removing_running_instance_fails() {
    let (mut reg, ids) = registry_with(&[("a", 1, 1)]);
    reg.start_instance(&ids[0], true).unwrap();
    assert_eq!(reg.check_removable(&ids[0]).unwrap_err().kind, ErrorKind::InstanceStarted);
    let e = reg.remove_instance(&ids[0], Ok(())).unwrap_err();
    assert_eq!(e.kind, ErrorKind::InstanceStarted);
    assert_eq!(reg.len(), 1);
}

#[test]
fn removing_stopped_instance_succeeds() {
    let (mut reg, ids) = registry_with(&[("a", 1, 1), ("b", 2, 2)]);
    let dir = reg.check_removable(&ids[0]).unwrap();
    assert_eq!(dir, vec!["srv".to_string(), "instances".to_string(), "a".to_string()]);
    reg.remove_instance(&ids[0], Ok(())).unwrap();
    assert_eq!(reg.len(), 1);
    assert_eq!(reg.get(&ids[0]).unwrap_err().kind, ErrorKind::InstanceNotFound);
    assert_eq!(reg.remove_instance("nope", Ok(())).unwrap_err().kind, ErrorKind::InstanceNotFound);
}

#[test]
fn failed_directory_removal_keeps_entry() {
    let (mut reg, ids) = registry_with(&[("a", 1, 1)]);
    let e = reg.remove_instance(&ids[0], Err("busy".to_string())).unwrap_err();
    assert_eq!(e.kind, ErrorKind::FailedToRemoveFileOrDir);
    assert!(e.detail.contains("busy"));
    assert_eq!(reg.len(), 1);
}

#[test]
fn start_needs_capability_and_stopped_state() {
    let (mut reg, ids) = registry_with(&[("a", 1, 1)]);
    assert_eq!(reg.start_instance(&ids[0], false).unwrap_err().kind, ErrorKind::PermissionDenied);
    assert_eq!(reg.start_instance("missing", true).unwrap_err().kind, ErrorKind::InstanceNotFound);
    reg.start_instance(&ids[0], true).unwrap();
    assert_eq!(reg.get_instance_state(&ids[0]).unwrap(), State::Starting);
    assert_eq!(reg.start_instance(&ids[0], true).unwrap_err().kind, ErrorKind::InstanceStarted);
}

#[test]
fn full_lifecycle() {
    let (mut reg, ids) = registry_with(&[("a", 1, 1)]);
    let id = &ids[0];
    reg.start_instance(id, true).unwrap();
    assert_eq!(reg.process_started(id).unwrap(), true);
    assert_eq!(reg.get_instance_state(id).unwrap(), State::Running);
    assert_eq!(reg.process_started(id).unwrap(), false);
    reg.stop_instance(id).unwrap();
    assert_eq!(reg.get_instance_state(id).unwrap(), State::Stopping);
    assert_eq!(reg.process_exited(id).unwrap(), State::Stopped);
    reg.stop_instance(id).unwrap();
    assert_eq!(reg.get_instance_state(id).unwrap(), State::Stopped);
}

#[test]
fn crash_without_restart_settles_stopped() {
    let (mut reg, ids) = registry_with(&[("a", 1, 1)]);
    let id = &ids[0];
    reg.start_instance(id, true).unwrap();
    reg.process_started(id).unwrap();
    assert_eq!(reg.process_exited(id).unwrap(), State::Crashed);
    assert_eq!(reg.settle_crash(id).unwrap(), State::Stopped);
}

#[test]
fn crash_with_restart_starts_again() {
    let mut reg = Registry::new();
    let mut r = request("a", 1);
    r.restart_on_crash = Field::Present(true);
    let id = create_instance_with_uuid(&mut reg, &r, "x".to_string(), &instances_dir(), 1).unwrap();
    reg.start_instance(&id, true).unwrap();
    reg.process_started(&id).unwrap();
    reg.process_exited(&id).unwrap();
    assert_eq!(reg.settle_crash(&id).unwrap(), State::Starting);
}

#[test]
fn kill_forces_stopped() {
    let (mut reg, ids) = registry_with(&[("a", 1, 1)]);
    let id = &ids[0];
    reg.start_instance(id, true).unwrap();
    reg.kill_instance(id).unwrap();
    assert_eq!(reg.get_instance_state(id).unwrap(), State::Stopped);
    assert_eq!(reg.kill_instance("nope").unwrap_err().kind, ErrorKind::InstanceNotFound);
}

#[test]
fn commands_only_while_running() {
    let (mut reg, ids) = registry_with(&[("a", 1, 1)]);
    let id = &ids[0];
    assert_eq!(reg.send_command(id).unwrap_err().kind, ErrorKind::BadRequest);
    reg.start_instance(id, true).unwrap();
    reg.process_started(id).unwrap();
    assert_eq!(reg.send_command(id).unwrap(), CommandDispatch::Supported);
    assert_eq!(reg.send_command("nope").unwrap_err().kind, ErrorKind::InstanceNotFound);
}
