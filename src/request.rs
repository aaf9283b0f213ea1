//! Validation of a request to create an instance.
//!
//! Each field of the request arrives as absent, present with the wrong type,
//! or present with a value. Required fields must be present and well typed;
//! optional ones fall back to their defaults.
use vstd::prelude::*;
use crate::error::{Error, ErrorKind};
use crate::outside::{new_uuid, sanitize_name, sanitized};
use crate::path::{clone_segments, is_dot, is_dot_dot, is_normal_segment, segments_view};
use crate::registry::{
    has_name, has_port, has_uuid, name_clash_detail, port_clash_detail, InstanceInfo, Registry,
    RuntimeConfig, State,
};

verus! {

/// One field of a request.
#[derive(Debug)]
pub enum Field<T> {
    Absent,
    Mistyped,
    Present(T),
}

/// A request to create an instance.
#[derive(Debug)]
pub struct CreateRequest {
    pub game_type: Field<String>,
    pub name: Field<String>,
    pub port: Field<u64>,
    pub version: Field<String>,
    pub flavour: Field<String>,
    pub description: Field<String>,
    pub fabric_loader_version: Field<String>,
    pub fabric_installer_version: Field<String>,
    pub min_ram: Field<u64>,
    pub max_ram: Field<u64>,
    pub auto_start: Field<bool>,
    pub restart_on_crash: Field<bool>,
    pub start_on_connection: Field<bool>,
    pub timeout_last_left: Field<u64>,
    pub timeout_no_activity: Field<u64>,
    pub backup_period: Field<u64>,
}

/// The code point of `c` with ASCII upper-case letters folded to lower case.
pub open spec fn ascii_lower(c: char) -> u32 {
    if 'A' <= c && c <= 'Z' {
        (c as u32 + 32) as u32
    } else {
        c as u32
    }
}

/// `a` equals `b` up to the case of ASCII letters.
pub open spec fn eq_ignore_ascii_case(a: Seq<char>, b: Seq<char>) -> bool {
    a.len() == b.len() && forall|i: int| 0 <= i < a.len() ==> ascii_lower(#[trigger] a[i])
        == ascii_lower(b[i])
}

/// The only game type this library builds instances of.
pub open spec fn is_supported_type(t: Seq<char>) -> bool {
    eq_ignore_ascii_case(t, "minecraft"@)
}

/// The name an instance gets from a requested name, if it is usable.
pub open spec fn instance_name(req: CreateRequest) -> Option<Seq<char>> {
    match req.name {
        Field::Present(n) => {
            let s = sanitized(n@);
            if s.len() == 0 || is_dot(s) || is_dot_dot(s) { None } else { Some(s) }
        },
        _ => None,
    }
}

/// Every field is well formed, whatever the game type.
pub open spec fn fields_valid(req: CreateRequest) -> bool {
    &&& req.game_type is Present
    &&& instance_name(req) is Some
    &&& req.port is Present
    &&& req.version is Present
    &&& req.flavour is Present
    &&& !(req.fabric_loader_version is Mistyped)
    &&& !(req.fabric_installer_version is Mistyped)
}

/// The request describes an instance this library can create.
pub open spec fn request_valid(req: CreateRequest) -> bool {
    fields_valid(req) && is_supported_type(req.game_type->Present_0@)
}

pub open spec fn u32_or(f: Field<u64>, d: u32) -> u32 {
    match f {
        Field::Present(v) => v as u32,
        _ => d,
    }
}

pub open spec fn bool_or_false(f: Field<bool>) -> bool {
    match f {
        Field::Present(v) => v,
        _ => false,
    }
}

pub open spec fn opt_u32(f: Field<u64>) -> Option<u32> {
    match f {
        Field::Present(v) => Some(v as u32),
        _ => None,
    }
}

pub open spec fn opt_text(f: Field<String>) -> Option<Seq<char>> {
    match f {
        Field::Present(v) => Some(v@),
        _ => None,
    }
}

pub open spec fn view_opt(o: Option<String>) -> Option<Seq<char>> {
    match o {
        Some(s) => Some(s@),
        None => None,
    }
}

/// The record that a valid request yields.
pub open spec fn matches_request(
    info: InstanceInfo,
    req: CreateRequest,
    uuid: Seq<char>,
    instances_dir: Seq<Seq<char>>,
    creation_time: u64,
) -> bool {
    let name = instance_name(req)->Some_0;
    &&& info.uuid@ == uuid
    &&& info.name@ == name
    &&& info.port == req.port->Present_0 as u32
    &&& segments_view(info.path@) == instances_dir.push(name)
    &&& info.state == State::Stopped
    &&& info.creation_time == creation_time
    &&& info.game_type@ == "minecraft"@
    &&& info.version@ == req.version->Present_0@
    &&& info.flavour@ == req.flavour->Present_0@
    &&& info.description@ == (match req.description {
        Field::Present(d) => d@,
        _ => "Pizza time"@,
    })
    &&& view_opt(info.fabric_loader_version) == opt_text(req.fabric_loader_version)
    &&& view_opt(info.fabric_installer_version) == opt_text(req.fabric_installer_version)
    &&& info.has_command_channel
    &&& info.runtime.min_ram == u32_or(req.min_ram, 1024)
    &&& info.runtime.max_ram == u32_or(req.max_ram, 2048)
    &&& info.runtime.auto_start == bool_or_false(req.auto_start)
    &&& info.runtime.restart_on_crash == bool_or_false(req.restart_on_crash)
    &&& info.runtime.start_on_connection == bool_or_false(req.start_on_connection)
    &&& info.runtime.timeout_last_left == opt_u32(req.timeout_last_left)
    &&& info.runtime.timeout_no_activity == opt_u32(req.timeout_no_activity)
    &&& info.runtime.backup_period == opt_u32(req.backup_period)
}

fn is_supported_type_exec(t: &str) -> (r: bool)
    ensures
        r == is_supported_type(t@),
{
    let expected = "minecraft";
    proof {
        reveal_strlit("minecraft");
    }
    assert(expected@ == "minecraft"@);
    let n = t.unicode_len();
    if n != expected.unicode_len() {
        return false;
    }
    let mut i: usize = 0;
    while i < n
        invariant
            n == t@.len(),
            n == expected@.len(),
            expected@ == "minecraft"@,
            i <= n,
            forall|k: int| 0 <= k < i ==> ascii_lower(#[trigger] t@[k]) == ascii_lower(expected@[k]),
        decreases n - i,
    {
        let c = t.get_char(i);
        let d = expected.get_char(i);
        let lc: u32 = if 'A' <= c && c <= 'Z' { c as u32 + 32 } else { c as u32 };
        let ld: u32 = if 'A' <= d && d <= 'Z' { d as u32 + 32 } else { d as u32 };
        assert(lc == ascii_lower(t@[i as int]));
        assert(ld == ascii_lower(expected@[i as int]));
        if lc != ld {
            assert(!eq_ignore_ascii_case(t@, expected@));
            return false;
        }
        i = i + 1;
    }
    true
}

fn text_or(f: &Field<String>, d: &str) -> (r: String)
    ensures
        r@ == (match *f {
            Field::Present(s) => s@,
            _ => d@,
        }),
{
    match f {
        Field::Present(s) => s.clone(),
        _ => String::from_str(d),
    }
}

fn optional_text(f: &Field<String>) -> (r: Option<String>)
    ensures
        view_opt(r) == opt_text(*f),
{
    match f {
        Field::Present(s) => Some(s.clone()),
        _ => None,
    }
}

fn u32_or_exec(f: &Field<u64>, d: u32) -> (r: u32)
    ensures
        r == u32_or(*f, d),
{
    match f {
        Field::Present(v) => #[verifier::truncate] (*v as u32),
        _ => d,
    }
}

fn bool_or_false_exec(f: &Field<bool>) -> (r: bool)
    ensures
        r == bool_or_false(*f),
{
    match f {
        Field::Present(v) => *v,
        _ => false,
    }
}

fn opt_u32_exec(f: &Field<u64>) -> (r: Option<u32>)
    ensures
        r == opt_u32(*f),
{
    match f {
        Field::Present(v) => Some(#[verifier::truncate] (*v as u32)),
        _ => None,
    }
}

fn malformed(detail: &str) -> (r: Error)
    ensures
        r.kind == ErrorKind::MalformedRequest,
        r.detail@ == detail@,
{
    Error::new(ErrorKind::MalformedRequest, detail)
}

/// The request names an instance, but its name sanitizes to nothing.
pub open spec fn name_sanitizes_empty(req: CreateRequest) -> bool {
    &&& req.game_type is Present
    &&& req.name is Present
    &&& sanitized(req.name->Present_0@).len() == 0
}

/// The detail of a create refusal that the live instances `entries` cause
/// for a valid request.
pub open spec fn clash_detail_ok(entries: Seq<InstanceInfo>, req: CreateRequest, detail: Seq<char>) -> bool {
    let name = instance_name(req)->Some_0;
    let port = req.port->Present_0 as u32;
    &&& request_valid(req) && has_name(entries, name) ==> detail == name_clash_detail(name)
    &&& request_valid(req) && !has_name(entries, name) && has_port(entries, port) ==> detail
        == port_clash_detail(port)
}

/// Checks `req` and builds the record of the new instance, in the `Stopped`
/// state, rooted at `instances_dir` followed by its sanitized name.
pub fn parse_create_request(
    req: &CreateRequest,
    uuid: String,
    instances_dir: &Vec<String>,
    creation_time: u64,
) -> (r: Result<InstanceInfo, Error>)
    ensures
        r is Ok <==> request_valid(*req),
        match r {
            Ok(info) => matches_request(info, *req, uuid@, segments_view(instances_dir@), creation_time)
                && is_normal_segment(info.name@),
            Err(e) => {
                &&& e.kind == (if fields_valid(*req) {
                    ErrorKind::Unsupported
                } else {
                    ErrorKind::MalformedRequest
                })
                &&& name_sanitizes_empty(*req) ==> e.detail@ == "Name must not be empty"@
            },
        },
{
    let game_type = match &req.game_type {
        Field::Absent => return Err(malformed("Json must contain type")),
        Field::Mistyped => return Err(malformed("Type must be string")),
        Field::Present(t) => t,
    };
    let raw_name = match &req.name {
        Field::Absent => return Err(malformed("Json must contain name")),
        Field::Mistyped => return Err(malformed("Name must be string")),
        Field::Present(n) => n,
    };
    let name = sanitize_name(raw_name.as_str());
    let nlen = name.as_str().unicode_len();
    if nlen == 0 {
        return Err(malformed("Name must not be empty"));
    }
    if (nlen == 1 && name.as_str().get_char(0) == '.') || (nlen == 2 && name.as_str().get_char(0)
        == '.' && name.as_str().get_char(1) == '.') {
        return Err(malformed("Name must not be a relative path"));
    }
    let port = match &req.port {
        Field::Absent => return Err(malformed("Json must contain port")),
        Field::Mistyped => return Err(malformed("Port must be integer")),
        Field::Present(p) => #[verifier::truncate] (*p as u32),
    };
    let version = match &req.version {
        Field::Absent => return Err(malformed("Json must contain version")),
        Field::Mistyped => return Err(malformed("Version must be string")),
        Field::Present(v) => v.clone(),
    };
    let flavour = match &req.flavour {
        Field::Absent => return Err(malformed("Json must contain flavour")),
        Field::Mistyped => return Err(malformed("Flavour is not one of the valid options")),
        Field::Present(f) => f.clone(),
    };
    if let Field::Mistyped = &req.fabric_loader_version {
        return Err(malformed("Fabric loader version must be string"));
    }
    if let Field::Mistyped = &req.fabric_installer_version {
        return Err(malformed("Fabric installer version must be string"));
    }
    if !is_supported_type_exec(game_type.as_str()) {
        return Err(Error::new(ErrorKind::Unsupported, "Unsupported instance type"));
    }
    let mut path = clone_segments(instances_dir);
    path.push(name.clone());
    let runtime = RuntimeConfig {
        min_ram: u32_or_exec(&req.min_ram, 1024),
        max_ram: u32_or_exec(&req.max_ram, 2048),
        auto_start: bool_or_false_exec(&req.auto_start),
        restart_on_crash: bool_or_false_exec(&req.restart_on_crash),
        start_on_connection: bool_or_false_exec(&req.start_on_connection),
        timeout_last_left: opt_u32_exec(&req.timeout_last_left),
        timeout_no_activity: opt_u32_exec(&req.timeout_no_activity),
        backup_period: opt_u32_exec(&req.backup_period),
    };
    let info = InstanceInfo {
        uuid,
        name,
        port,
        path,
        state: State::Stopped,
        creation_time,
        game_type: String::from_str("minecraft"),
        version,
        flavour,
        description: text_or(&req.description, "Pizza time"),
        fabric_loader_version: optional_text(&req.fabric_loader_version),
        fabric_installer_version: optional_text(&req.fabric_installer_version),
        has_command_channel: true,
        runtime,
    };
    assert(segments_view(info.path@) =~= segments_view(instances_dir@).push(info.name@));
    Ok(info)
}

/// A create request for `req` succeeds on the live instances `entries` with
/// the identifier `uuid`: it is valid, and no live instance holds its name,
/// its port or that identifier.
pub open spec fn create_succeeds(entries: Seq<InstanceInfo>, req: CreateRequest, uuid: Seq<char>) -> bool {
    &&& request_valid(req)
    &&& !has_name(entries, instance_name(req)->Some_0)
    &&& !has_port(entries, req.port->Present_0 as u32)
    &&& !has_uuid(entries, uuid)
}

/// Creates an instance from `req` with the identifier `uuid`, validating
/// the request and then checking and inserting under one exclusive borrow.
pub fn create_instance_with_uuid(
    registry: &mut Registry,
    req: &CreateRequest,
    uuid: String,
    instances_dir: &Vec<String>,
    creation_time: u64,
) -> (r: Result<String, Error>)
    requires
        old(registry).wf(),
    ensures
        final(registry).wf(),
        r is Ok <==> create_succeeds(old(registry)@, *req, uuid@),
        match r {
            Ok(id) => {
                &&& id@ == uuid@
                &&& final(registry)@.len() == old(registry)@.len() + 1
                &&& final(registry)@.drop_last() == old(registry)@
                &&& matches_request(
                    final(registry)@.last(),
                    *req,
                    uuid@,
                    segments_view(instances_dir@),
                    creation_time,
                )
                &&& is_normal_segment(final(registry)@.last().name@)
            },
            Err(e) => {
                &&& final(registry)@ == old(registry)@
                &&& e.kind == (if !fields_valid(*req) {
                    ErrorKind::MalformedRequest
                } else if !request_valid(*req) {
                    ErrorKind::Unsupported
                } else {
                    ErrorKind::MalformedRequest
                })
                &&& name_sanitizes_empty(*req) ==> e.detail@ == "Name must not be empty"@
                &&& clash_detail_ok(old(registry)@, *req, e.detail@)
            },
        },
{
    let id = uuid.clone();
    let info = parse_create_request(req, uuid, instances_dir, creation_time)?;
    let ghost pre = registry@;
    match registry.insert(info) {
        Ok(()) => {
            assert(registry@.drop_last() =~= pre);
            Ok(id)
        },
        Err(e) => Err(e),
    }
}

/// Creates an instance from `req` under a fresh random identifier, which it
/// returns.
pub fn create_instance(
    registry: &mut Registry,
    req: &CreateRequest,
    instances_dir: &Vec<String>,
    creation_time: u64,
) -> (r: Result<String, Error>)
    requires
        old(registry).wf(),
    ensures
        final(registry).wf(),
        !request_valid(*req) ==> r is Err,
        match r {
            Ok(id) => {
                &&& create_succeeds(old(registry)@, *req, id@)
                &&& final(registry)@.len() == old(registry)@.len() + 1
                &&& final(registry)@.drop_last() == old(registry)@
                &&& matches_request(
                    final(registry)@.last(),
                    *req,
                    id@,
                    segments_view(instances_dir@),
                    creation_time,
                )
                &&& is_normal_segment(final(registry)@.last().name@)
            },
            Err(e) => {
                &&& final(registry)@ == old(registry)@
                &&& e.kind == (if !fields_valid(*req) {
                    ErrorKind::MalformedRequest
                } else if !request_valid(*req) {
                    ErrorKind::Unsupported
                } else {
                    ErrorKind::MalformedRequest
                })
                &&& name_sanitizes_empty(*req) ==> e.detail@ == "Name must not be empty"@
                &&& clash_detail_ok(old(registry)@, *req, e.detail@)
            },
        },
        request_valid(*req) && !has_name(old(registry)@, instance_name(*req)->Some_0) && !has_port(
            old(registry)@,
            req.port->Present_0 as u32,
        ) && old(registry)@.len() == 0 ==> r is Ok,
{
    let uuid = new_uuid();
    create_instance_with_uuid(registry, req, uuid, instances_dir, creation_time)
}

/// Of two creations with the same name or the same port, at most one
/// succeeds: once the first has added its instance, the second is refused.
pub proof fn lemma_duplicate_create_refused(
    entries: Seq<InstanceInfo>,
    first: CreateRequest,
    added: InstanceInfo,
    first_uuid: Seq<char>,
    instances_dir: Seq<Seq<char>>,
    creation_time: u64,
    second: CreateRequest,
    second_uuid: Seq<char>,
)
    requires
        create_succeeds(entries, first, first_uuid),
        matches_request(added, first, first_uuid, instances_dir, creation_time),
        instance_name(second) == instance_name(first) || second.port->Present_0 as u32
            == first.port->Present_0 as u32,
    ensures
        !create_succeeds(entries.push(added), second, second_uuid),
{
    let s = entries.push(added);
    let k = entries.len() as int;
    assert(s[k] == added);
    if request_valid(second) {
        if instance_name(second) == instance_name(first) {
            assert(s[k].name@ == instance_name(second)->Some_0);
        } else {
            assert(s[k].port == second.port->Present_0 as u32);
        }
    }
}

} // verus!
