//! The instance registry: the authoritative set of live instances, their
//! uniqueness rules (identifier, name, port) and each instance's lifecycle
//! state machine.
use vstd::prelude::*;
use crate::error::{Error, ErrorKind};
use crate::text::{decimal, push_decimal};

verus! {

/// Lifecycle state of an instance.
#[derive(Clone, Copy, Debug, PartialEq, Eq, Structural)]
pub enum State {
    Starting,
    Running,
    Stopping,
    Stopped,
    Crashed,
}

/// Settings of an instance that may change while it lives.
#[derive(Clone, Copy, Debug)]
pub struct RuntimeConfig {
    pub min_ram: u32,
    pub max_ram: u32,
    pub auto_start: bool,
    pub restart_on_crash: bool,
    pub start_on_connection: bool,
    pub timeout_last_left: Option<u32>,
    pub timeout_no_activity: Option<u32>,
    pub backup_period: Option<u32>,
}

/// Everything the registry records of one instance.
#[derive(Debug)]
pub struct InstanceInfo {
    pub uuid: String,
    pub name: String,
    pub port: u32,
    pub path: Vec<String>,
    pub state: State,
    pub creation_time: u64,
    pub game_type: String,
    pub version: String,
    pub flavour: String,
    pub description: String,
    pub fabric_loader_version: Option<String>,
    pub fabric_installer_version: Option<String>,
    pub has_command_channel: bool,
    pub runtime: RuntimeConfig,
}

/// What the caller of `send_command` has to do next.
#[derive(Clone, Copy, Debug, PartialEq, Eq, Structural)]
pub enum CommandDispatch {
    /// Write the command to the instance's command channel.
    Supported,
    /// The instance type has no command channel; this is not an error.
    Unsupported,
}

pub open spec fn index_of_uuid(s: Seq<InstanceInfo>, uuid: Seq<char>) -> int {
    choose|i: int| 0 <= i < s.len() && s[i].uuid@ == uuid
}

pub open spec fn has_uuid(s: Seq<InstanceInfo>, uuid: Seq<char>) -> bool {
    exists|i: int| 0 <= i < s.len() && s[i].uuid@ == uuid
}

pub open spec fn has_name(s: Seq<InstanceInfo>, name: Seq<char>) -> bool {
    exists|i: int| 0 <= i < s.len() && s[i].name@ == name
}

pub open spec fn has_port(s: Seq<InstanceInfo>, port: u32) -> bool {
    exists|i: int| 0 <= i < s.len() && s[i].port == port
}

/// No two live instances share an identifier, a name or a port.
pub open spec fn entries_unique(s: Seq<InstanceInfo>) -> bool {
    forall|i: int, j: int|
        0 <= i < s.len() && 0 <= j < s.len() && i != j ==> {
            &&& s[i].uuid@ != s[j].uuid@
            &&& s[i].name@ != s[j].name@
            &&& s[i].port != s[j].port
        }
}

/// The state of the instance `uuid`, which must be live.
pub open spec fn state_of(s: Seq<InstanceInfo>, uuid: Seq<char>) -> State {
    s[index_of_uuid(s, uuid)].state
}

/// `new` is `old` with only the state of the instance `uuid` set to `st`.
pub open spec fn with_state(old: Seq<InstanceInfo>, new: Seq<InstanceInfo>, uuid: Seq<char>, st: State) -> bool {
    &&& new.len() == old.len()
    &&& forall|i: int| 0 <= i < old.len() ==> {
        &&& (#[trigger] new[i]).uuid == old[i].uuid
        &&& new[i].name == old[i].name
        &&& new[i].port == old[i].port
        &&& new[i].path == old[i].path
        &&& new[i].creation_time == old[i].creation_time
        &&& new[i].state == (if old[i].uuid@ == uuid { st } else { old[i].state })
    }
}

/// State reached by a graceful stop request, if the request is accepted.
pub open spec fn stop_target(s: State) -> State {
    match s {
        State::Running | State::Starting => State::Stopping,
        State::Crashed => State::Stopped,
        _ => s,
    }
}

/// State reached when the supervised process exits.
pub open spec fn exit_target(s: State) -> State {
    match s {
        State::Stopping => State::Stopped,
        State::Running | State::Starting => State::Crashed,
        _ => s,
    }
}

/// `a` records the same instance as `b`, field by field.
pub open spec fn same_record(a: InstanceInfo, b: InstanceInfo) -> bool {
    &&& a.uuid == b.uuid
    &&& a.name == b.name
    &&& a.port == b.port
    &&& a.path@ == b.path@
    &&& a.state == b.state
    &&& a.creation_time == b.creation_time
    &&& a.game_type == b.game_type
    &&& a.version == b.version
    &&& a.flavour == b.flavour
    &&& a.description == b.description
    &&& a.fabric_loader_version == b.fabric_loader_version
    &&& a.fabric_installer_version == b.fabric_installer_version
    &&& a.has_command_channel == b.has_command_channel
    &&& a.runtime == b.runtime
}

fn clone_opt(o: &Option<String>) -> (r: Option<String>)
    ensures
        r == *o,
{
    match o {
        Some(s) => Some(s.clone()),
        None => None,
    }
}

impl InstanceInfo {
    /// A copy of this record.
    pub fn snapshot(&self) -> (r: InstanceInfo)
        ensures
            same_record(r, *self),
    {
        InstanceInfo {
            uuid: self.uuid.clone(),
            name: self.name.clone(),
            port: self.port,
            path: crate::path::clone_segments(&self.path),
            state: self.state,
            creation_time: self.creation_time,
            game_type: self.game_type.clone(),
            version: self.version.clone(),
            flavour: self.flavour.clone(),
            description: self.description.clone(),
            fabric_loader_version: clone_opt(&self.fabric_loader_version),
            fabric_installer_version: clone_opt(&self.fabric_installer_version),
            has_command_channel: self.has_command_channel,
            runtime: self.runtime,
        }
    }
}

/// `order` lists each index below `n` exactly once.
pub open spec fn is_index_permutation(order: Seq<usize>, n: nat) -> bool {
    &&& order.len() == n
    &&& forall|k: int| 0 <= k < order.len() ==> (#[trigger] order[k]) < n
    &&& forall|j: usize| j < n ==> #[trigger] order.contains(j)
}

/// Following `order` through `s` visits creation times in ascending order.
pub open spec fn ordered_by_time(s: Seq<InstanceInfo>, order: Seq<usize>) -> bool {
    forall|a: int, b: int|
        0 <= a < b < order.len() ==> s[order[a] as int].creation_time <= s[order[b] as int].creation_time
}

/// The detail of a refusal for a name already in use.
pub open spec fn name_clash_detail(name: Seq<char>) -> Seq<char> {
    "Instance with name "@ + name + " already exists"@
}

/// The detail of a refusal for a port already in use.
pub open spec fn port_clash_detail(port: u32) -> Seq<char> {
    "Instance with port "@ + decimal(port as nat) + " already exists"@
}

/// The live instances, each with its own state.
pub struct Registry {
    instances: Vec<InstanceInfo>,
}

impl View for Registry {
    type V = Seq<InstanceInfo>;

    closed spec fn view(&self) -> Seq<InstanceInfo> {
        self.instances@
    }
}

impl Registry {
    pub open spec fn wf(&self) -> bool {
        entries_unique(self@)
    }

    /// An empty registry.
    pub fn new() -> (r: Registry)
        ensures
            r@.len() == 0,
            r.wf(),
    {
        Registry { instances: Vec::new() }
    }

    pub fn len(&self) -> (r: usize)
        ensures
            r == self@.len(),
    {
        self.instances.len()
    }

    fn find(&self, uuid: &str) -> (r: Option<usize>)
        requires
            self.wf(),
        ensures
            match r {
                Some(i) => i < self@.len() && self@[i as int].uuid@ == uuid@ && index_of_uuid(
                    self@,
                    uuid@,
                ) == i,
                None => !has_uuid(self@, uuid@),
            },
    {
        let mut i: usize = 0;
        while i < self.instances.len()
            invariant
                i <= self@.len(),
                self@ == self.instances@,
                self.wf(),
                forall|k: int| 0 <= k < i ==> self@[k].uuid@ != uuid@,
            decreases self@.len() - i,
        {
            if crate::text::str_eq(self.instances[i].uuid.as_str(), uuid) {
                proof {
                    let j = index_of_uuid(self@, uuid@);
                    assert(has_uuid(self@, uuid@));
                    assert(self@[j].uuid@ == uuid@);
                    if j != i as int {
                        assert(self@[j].uuid@ != self@[i as int].uuid@);
                    }
                }
                return Some(i);
            }
            i = i + 1;
        }
        None
    }

    /// The record of the instance `uuid`.
    pub fn get(&self, uuid: &str) -> (r: Result<&InstanceInfo, Error>)
        requires
            self.wf(),
        ensures
            match r {
                Ok(info) => has_uuid(self@, uuid@) && *info == self@[index_of_uuid(self@, uuid@)],
                Err(e) => !has_uuid(self@, uuid@) && e.kind == ErrorKind::InstanceNotFound,
            },
    {
        match self.find(uuid) {
            Some(i) => Ok(&self.instances[i]),
            None => Err(Error::new(ErrorKind::InstanceNotFound, "Instance not found")),
        }
    }

    fn name_in_use(&self, name: &str) -> (r: bool)
        ensures
            r == has_name(self@, name@),
    {
        let mut i: usize = 0;
        while i < self.instances.len()
            invariant
                i <= self@.len(),
                self@ == self.instances@,
                forall|k: int| 0 <= k < i ==> self@[k].name@ != name@,
            decreases self@.len() - i,
        {
            if crate::text::str_eq(self.instances[i].name.as_str(), name) {
                return true;
            }
            i = i + 1;
        }
        false
    }

    fn port_in_use(&self, port: u32) -> (r: bool)
        ensures
            r == has_port(self@, port),
    {
        let mut i: usize = 0;
        while i < self.instances.len()
            invariant
                i <= self@.len(),
                self@ == self.instances@,
                forall|k: int| 0 <= k < i ==> self@[k].port != port,
            decreases self@.len() - i,
        {
            if self.instances[i].port == port {
                return true;
            }
            i = i + 1;
        }
        false
    }

    /// Adds `info` as a new live instance. The scan for a clash and the
    /// insertion happen under one exclusive borrow, so two additions with the
    /// same name or port cannot both succeed.
    pub fn insert(&mut self, info: InstanceInfo) -> (r: Result<(), Error>)
        requires
            old(self).wf(),
        ensures
            final(self).wf(),
            match r {
                Ok(()) => {
                    &&& !has_uuid(old(self)@, info.uuid@)
                    &&& !has_name(old(self)@, info.name@)
                    &&& !has_port(old(self)@, info.port)
                    &&& final(self)@ == old(self)@.push(info)
                },
                Err(e) => {
                    &&& (has_uuid(old(self)@, info.uuid@) || has_name(old(self)@, info.name@)
                        || has_port(old(self)@, info.port))
                    &&& e.kind == ErrorKind::MalformedRequest
                    &&& final(self)@ == old(self)@
                    &&& has_name(old(self)@, info.name@) ==> e.detail@ == name_clash_detail(info.name@)
                    &&& !has_name(old(self)@, info.name@) && has_port(old(self)@, info.port) ==> e.detail@
                        == port_clash_detail(info.port)
                },
            },
    {
        if self.name_in_use(info.name.as_str()) {
            let mut detail = String::from_str("Instance with name ");
            detail.append(info.name.as_str());
            detail.append(" already exists");
            return Err(Error::from_string(ErrorKind::MalformedRequest, detail));
        }
        if self.port_in_use(info.port) {
            let mut detail = String::from_str("Instance with port ");
            push_decimal(&mut detail, info.port as u64);
            detail.append(" already exists");
            return Err(Error::from_string(ErrorKind::MalformedRequest, detail));
        }
        if self.find(info.uuid.as_str()).is_some() {
            return Err(Error::new(ErrorKind::MalformedRequest, "Instance with this uuid already exists"));
        }
        let ghost pre = self@;
        self.instances.push(info);
        assert(self@ == pre.push(info));
        assert forall|i: int, j: int|
            0 <= i < self@.len() && 0 <= j < self@.len() && i != j implies {
                &&& self@[i].uuid@ != self@[j].uuid@
                &&& self@[i].name@ != self@[j].name@
                &&& self@[i].port != self@[j].port
            } by {
            if i == pre.len() as int {
                assert(!(0 <= j < pre.len() && pre[j].uuid@ == info.uuid@));
                assert(!(0 <= j < pre.len() && pre[j].name@ == info.name@));
                assert(!(0 <= j < pre.len() && pre[j].port == info.port));
            } else if j == pre.len() as int {
                assert(!(0 <= i < pre.len() && pre[i].uuid@ == info.uuid@));
                assert(!(0 <= i < pre.len() && pre[i].name@ == info.name@));
                assert(!(0 <= i < pre.len() && pre[i].port == info.port));
            }
        }
        Ok(())
    }

    fn set_state(&mut self, i: usize, st: State)
        requires
            old(self).wf(),
            i < old(self)@.len(),
        ensures
            final(self).wf(),
            with_state(old(self)@, final(self)@, old(self)@[i as int].uuid@, st),
    {
        let ghost pre = self@;
        let mut info = self.instances.remove(i);
        info.state = st;
        self.instances.insert(i, info);
        assert forall|k: int| 0 <= k < pre.len() implies {
            &&& (#[trigger] self@[k]).uuid == pre[k].uuid
            &&& self@[k].name == pre[k].name
            &&& self@[k].port == pre[k].port
            &&& self@[k].path == pre[k].path
            &&& self@[k].creation_time == pre[k].creation_time
            &&& self@[k].state == (if pre[k].uuid@ == pre[i as int].uuid@ { st } else { pre[k].state })
        } by {
            if k != i as int {
                assert(self@[k] == pre[k]);
                assert(pre[k].uuid@ != pre[i as int].uuid@);
            }
        }
    }

    /// Starts the instance `uuid`: allowed to a caller holding the start
    /// capability, from `Stopped` or `Crashed`, and it enters `Starting`.
    pub fn start_instance(&mut self, uuid: &str, can_start: bool) -> (r: Result<(), Error>)
        requires
            old(self).wf(),
        ensures
            final(self).wf(),
            match r {
                Ok(()) => {
                    &&& can_start
                    &&& has_uuid(old(self)@, uuid@)
                    &&& (state_of(old(self)@, uuid@) == State::Stopped || state_of(old(self)@, uuid@)
                        == State::Crashed)
                    &&& with_state(old(self)@, final(self)@, uuid@, State::Starting)
                },
                Err(e) => {
                    &&& final(self)@ == old(self)@
                    &&& !can_start ==> e.kind == ErrorKind::PermissionDenied
                    &&& can_start && !has_uuid(old(self)@, uuid@) ==> e.kind
                        == ErrorKind::InstanceNotFound
                    &&& can_start && has_uuid(old(self)@, uuid@) ==> {
                        &&& e.kind == ErrorKind::InstanceStarted
                        &&& state_of(old(self)@, uuid@) != State::Stopped
                        &&& state_of(old(self)@, uuid@) != State::Crashed
                    }
                },
            },
    {
        if !can_start {
            return Err(Error::new(ErrorKind::PermissionDenied, "Not authorized to start instance"));
        }
        let i = match self.find(uuid) {
            Some(i) => i,
            None => return Err(Error::new(ErrorKind::InstanceNotFound, "Instance not found")),
        };
        let st = self.instances[i].state;
        if st != State::Stopped && st != State::Crashed {
            return Err(Error::new(ErrorKind::InstanceStarted, "Instance is already started"));
        }
        self.set_state(i, State::Starting);
        Ok(())
    }

    /// Requests a graceful stop: `Running` and `Starting` enter `Stopping`,
    /// a crashed instance is settled as `Stopped`, and an instance that is
    /// already stopped or stopping stays as it is.
    pub fn stop_instance(&mut self, uuid: &str) -> (r: Result<(), Error>)
        requires
            old(self).wf(),
        ensures
            final(self).wf(),
            match r {
                Ok(()) => has_uuid(old(self)@, uuid@) && with_state(
                    old(self)@,
                    final(self)@,
                    uuid@,
                    stop_target(state_of(old(self)@, uuid@)),
                ),
                Err(e) => !has_uuid(old(self)@, uuid@) && e.kind == ErrorKind::InstanceNotFound
                    && final(self)@ == old(self)@,
            },
    {
        let i = match self.find(uuid) {
            Some(i) => i,
            None => return Err(Error::new(ErrorKind::InstanceNotFound, "Instance not found")),
        };
        let st = self.instances[i].state;
        let next = match st {
            State::Running | State::Starting => State::Stopping,
            State::Crashed => State::Stopped,
            _ => st,
        };
        self.set_state(i, next);
        Ok(())
    }

    /// Forces the instance `uuid` to `Stopped`, whatever its state.
    pub fn kill_instance(&mut self, uuid: &str) -> (r: Result<(), Error>)
        requires
            old(self).wf(),
        ensures
            final(self).wf(),
            match r {
                Ok(()) => has_uuid(old(self)@, uuid@) && with_state(
                    old(self)@,
                    final(self)@,
                    uuid@,
                    State::Stopped,
                ),
                Err(e) => !has_uuid(old(self)@, uuid@) && e.kind == ErrorKind::InstanceNotFound
                    && final(self)@ == old(self)@,
            },
    {
        let i = match self.find(uuid) {
            Some(i) => i,
            None => return Err(Error::new(ErrorKind::InstanceNotFound, "Instance not found")),
        };
        self.set_state(i, State::Stopped);
        Ok(())
    }

    /// Records that the process of a `Starting` instance is up: it enters
    /// `Running`. In any other state the instance is left as it is and the
    /// result is `false`.
    pub fn process_started(&mut self, uuid: &str) -> (r: Result<bool, Error>)
        requires
            old(self).wf(),
        ensures
            final(self).wf(),
            match r {
                Ok(changed) => {
                    &&& has_uuid(old(self)@, uuid@)
                    &&& changed == (state_of(old(self)@, uuid@) == State::Starting)
                    &&& changed ==> with_state(old(self)@, final(self)@, uuid@, State::Running)
                    &&& !changed ==> final(self)@ == old(self)@
                },
                Err(e) => !has_uuid(old(self)@, uuid@) && e.kind == ErrorKind::InstanceNotFound
                    && final(self)@ == old(self)@,
            },
    {
        let i = match self.find(uuid) {
            Some(i) => i,
            None => return Err(Error::new(ErrorKind::InstanceNotFound, "Instance not found")),
        };
        if self.instances[i].state == State::Starting {
            self.set_state(i, State::Running);
            Ok(true)
        } else {
            Ok(false)
        }
    }

    /// Records that the supervised process exited: an instance that was
    /// stopping is `Stopped`, one that was starting or running has `Crashed`.
    pub fn process_exited(&mut self, uuid: &str) -> (r: Result<State, Error>)
        requires
            old(self).wf(),
        ensures
            final(self).wf(),
            match r {
                Ok(st) => {
                    &&& has_uuid(old(self)@, uuid@)
                    &&& st == exit_target(state_of(old(self)@, uuid@))
                    &&& with_state(old(self)@, final(self)@, uuid@, st)
                },
                Err(e) => !has_uuid(old(self)@, uuid@) && e.kind == ErrorKind::InstanceNotFound
                    && final(self)@ == old(self)@,
            },
    {
        let i = match self.find(uuid) {
            Some(i) => i,
            None => return Err(Error::new(ErrorKind::InstanceNotFound, "Instance not found")),
        };
        let st = self.instances[i].state;
        let next = match st {
            State::Stopping => State::Stopped,
            State::Running | State::Starting => State::Crashed,
            _ => st,
        };
        self.set_state(i, next);
        Ok(next)
    }

    /// Settles a crashed instance: it re-enters `Starting` when its runtime
    /// configuration asks to restart on crash, and is `Stopped` otherwise. An
    /// instance in another state is left as it is.
    pub fn settle_crash(&mut self, uuid: &str) -> (r: Result<State, Error>)
        requires
            old(self).wf(),
        ensures
            final(self).wf(),
            match r {
                Ok(st) => {
                    let old_st = state_of(old(self)@, uuid@);
                    let restart = old(self)@[index_of_uuid(old(self)@, uuid@)].runtime.restart_on_crash;
                    &&& has_uuid(old(self)@, uuid@)
                    &&& st == (if old_st != State::Crashed { old_st } else if restart {
                        State::Starting
                    } else {
                        State::Stopped
                    })
                    &&& with_state(old(self)@, final(self)@, uuid@, st)
                },
                Err(e) => !has_uuid(old(self)@, uuid@) && e.kind == ErrorKind::InstanceNotFound
                    && final(self)@ == old(self)@,
            },
    {
        let i = match self.find(uuid) {
            Some(i) => i,
            None => return Err(Error::new(ErrorKind::InstanceNotFound, "Instance not found")),
        };
        let st = self.instances[i].state;
        let next = if st != State::Crashed {
            st
        } else if self.instances[i].runtime.restart_on_crash {
            State::Starting
        } else {
            State::Stopped
        };
        self.set_state(i, next);
        Ok(next)
    }

    /// The lifecycle state of the instance `uuid`.
    pub fn get_instance_state(&self, uuid: &str) -> (r: Result<State, Error>)
        requires
            self.wf(),
        ensures
            match r {
                Ok(st) => has_uuid(self@, uuid@) && st == state_of(self@, uuid@),
                Err(e) => !has_uuid(self@, uuid@) && e.kind == ErrorKind::InstanceNotFound,
            },
    {
        match self.find(uuid) {
            Some(i) => Ok(self.instances[i].state),
            None => Err(Error::new(ErrorKind::InstanceNotFound, "Instance not found")),
        }
    }

    /// Decides whether a text command may go to the instance `uuid`: only
    /// while it is `Running`, and only where its type has a command channel.
    pub fn send_command(&self, uuid: &str) -> (r: Result<CommandDispatch, Error>)
        requires
            self.wf(),
        ensures
            match r {
                Ok(d) => {
                    let info = self@[index_of_uuid(self@, uuid@)];
                    &&& has_uuid(self@, uuid@)
                    &&& info.state == State::Running
                    &&& (d == CommandDispatch::Supported) == info.has_command_channel
                },
                Err(e) => {
                    &&& !has_uuid(self@, uuid@) ==> e.kind == ErrorKind::InstanceNotFound
                    &&& has_uuid(self@, uuid@) ==> e.kind == ErrorKind::BadRequest && state_of(
                        self@,
                        uuid@,
                    ) != State::Running
                },
            },
    {
        let i = match self.find(uuid) {
            Some(i) => i,
            None => return Err(Error::new(ErrorKind::InstanceNotFound, "Instance not found")),
        };
        if self.instances[i].state != State::Running {
            return Err(Error::new(ErrorKind::BadRequest, "Instance is not running"));
        }
        if self.instances[i].has_command_channel {
            Ok(CommandDispatch::Supported)
        } else {
            Ok(CommandDispatch::Unsupported)
        }
    }

    /// The root directory of the instance `uuid`, provided it may be removed:
    /// it must be live and `Stopped`. Nothing changes.
    pub fn check_removable(&self, uuid: &str) -> (r: Result<Vec<String>, Error>)
        requires
            self.wf(),
        ensures
            match r {
                Ok(p) => {
                    &&& has_uuid(self@, uuid@)
                    &&& state_of(self@, uuid@) == State::Stopped
                    &&& p@ == self@[index_of_uuid(self@, uuid@)].path@
                },
                Err(e) => {
                    &&& !has_uuid(self@, uuid@) ==> e.kind == ErrorKind::InstanceNotFound
                    &&& has_uuid(self@, uuid@) ==> e.kind == ErrorKind::InstanceStarted && state_of(
                        self@,
                        uuid@,
                    ) != State::Stopped
                },
            },
    {
        let i = match self.find(uuid) {
            Some(i) => i,
            None => return Err(Error::new(ErrorKind::InstanceNotFound, "Instance not found")),
        };
        if self.instances[i].state != State::Stopped {
            return Err(Error::new(ErrorKind::InstanceStarted, "Instance is running, cannot remove"));
        }
        Ok(crate::path::clone_segments(&self.instances[i].path))
    }

    /// Removes the instance `uuid` once its directory is gone. `removal` is
    /// the outcome of deleting that directory; a failure there leaves the
    /// entry in place. Only a `Stopped` instance is ever removed.
    pub fn remove_instance(&mut self, uuid: &str, removal: Result<(), String>) -> (r: Result<(), Error>)
        requires
            old(self).wf(),
        ensures
            final(self).wf(),
            match r {
                Ok(()) => {
                    let i = index_of_uuid(old(self)@, uuid@);
                    &&& has_uuid(old(self)@, uuid@)
                    &&& state_of(old(self)@, uuid@) == State::Stopped
                    &&& removal is Ok
                    &&& final(self)@ == old(self)@.remove(i)
                },
                Err(e) => {
                    &&& final(self)@ == old(self)@
                    &&& !has_uuid(old(self)@, uuid@) ==> e.kind == ErrorKind::InstanceNotFound
                    &&& has_uuid(old(self)@, uuid@) && state_of(old(self)@, uuid@) != State::Stopped
                        ==> e.kind == ErrorKind::InstanceStarted
                    &&& has_uuid(old(self)@, uuid@) && state_of(old(self)@, uuid@) == State::Stopped
                        ==> e.kind == ErrorKind::FailedToRemoveFileOrDir && removal is Err
                },
            },
    {
        let i = match self.find(uuid) {
            Some(i) => i,
            None => return Err(Error::new(ErrorKind::InstanceNotFound, "Instance not found")),
        };
        if self.instances[i].state != State::Stopped {
            return Err(Error::new(ErrorKind::InstanceStarted, "Instance is running, cannot remove"));
        }
        if let Err(msg) = removal {
            let mut detail = String::from_str("Could not remove instance: ");
            detail.append(msg.as_str());
            return Err(Error::from_string(ErrorKind::FailedToRemoveFileOrDir, detail));
        }
        let ghost pre = self@;
        self.instances.remove(i);
        assert forall|a: int, b: int|
            0 <= a < self@.len() && 0 <= b < self@.len() && a != b implies {
                &&& self@[a].uuid@ != self@[b].uuid@
                &&& self@[a].name@ != self@[b].name@
                &&& self@[a].port != self@[b].port
            } by {
            let a0 = if a < i { a } else { a + 1 };
            let b0 = if b < i { b } else { b + 1 };
            assert(self@[a] == pre[a0]);
            assert(self@[b] == pre[b0]);
        }
        Ok(())
    }

    /// The indices of the live instances, by ascending creation time.
    pub fn order_by_creation_time(&self) -> (r: Vec<usize>)
        ensures
            is_index_permutation(r@, self@.len()),
            ordered_by_time(self@, r@),
    {
        let n = self.instances.len();
        let mut order: Vec<usize> = Vec::new();
        let mut i: usize = 0;
        while i < n
            invariant
                n == self@.len(),
                self@ == self.instances@,
                i <= n,
                order@.len() == i,
                forall|k: int| 0 <= k < order@.len() ==> (#[trigger] order@[k]) < i,
                forall|j: usize| j < i ==> #[trigger] order@.contains(j),
                ordered_by_time(self@, order@),
            decreases n - i,
        {
            let t = self.instances[i].creation_time;
            let mut p: usize = 0;
            while p < order.len() && self.instances[order[p]].creation_time <= t
                invariant
                    n == self@.len(),
                    self@ == self.instances@,
                    i < n,
                    t == self@[i as int].creation_time,
                    p <= order@.len(),
                    forall|k: int| 0 <= k < order@.len() ==> (#[trigger] order@[k]) < i,
                    forall|k: int| 0 <= k < p ==> self@[order@[k] as int].creation_time <= t,
                decreases order@.len() - p,
            {
                p = p + 1;
            }
            let ghost pre = order@;
            order.insert(p, i);
            assert(order@ == pre.insert(p as int, i));
            assert forall|j: usize| j < i + 1 implies #[trigger] order@.contains(j) by {
                if j == i {
                    assert(order@[p as int] == j);
                } else {
                    assert(pre.contains(j));
                    let k0 = choose|k: int| 0 <= k < pre.len() && pre[k] == j;
                    if k0 < p {
                        assert(order@[k0] == j);
                    } else {
                        assert(order@[k0 + 1] == j);
                    }
                }
            }
            assert forall|a: int, b: int| 0 <= a < b < order@.len() implies self@[order@[a] as int].creation_time
                <= self@[order@[b] as int].creation_time by {
                if b < p {
                } else if b == p as int {
                    assert(order@[a] == pre[a]);
                } else if a == p as int {
                    assert(order@[b] == pre[b - 1]);
                    if p < pre.len() {
                        assert(self@[pre[p as int] as int].creation_time > t);
                        if b - 1 > p {
                            assert(self@[pre[p as int] as int].creation_time <= self@[pre[b - 1] as int].creation_time);
                        }
                    }
                } else if a < p {
                    assert(order@[a] == pre[a]);
                    assert(order@[b] == pre[b - 1]);
                } else {
                    assert(order@[a] == pre[a - 1]);
                    assert(order@[b] == pre[b - 1]);
                }
            }
            i = i + 1;
        }
        order
    }

    /// Snapshots of all live instances, by ascending creation time.
    pub fn list_instance(&self) -> (r: Vec<InstanceInfo>)
        ensures
            exists|order: Seq<usize>|
                {
                    &&& is_index_permutation(order, self@.len())
                    &&& ordered_by_time(self@, order)
                    &&& r@.len() == order.len()
                    &&& forall|k: int|
                        0 <= k < order.len() ==> same_record(#[trigger] r@[k], self@[order[k] as int])
                },
    {
        let order = self.order_by_creation_time();
        let mut out: Vec<InstanceInfo> = Vec::new();
        let mut k: usize = 0;
        while k < order.len()
            invariant
                self@ == self.instances@,
                is_index_permutation(order@, self@.len()),
                k <= order@.len(),
                out@.len() == k,
                forall|m: int| 0 <= m < k ==> same_record(#[trigger] out@[m], self@[order@[m] as int]),
            decreases order@.len() - k,
        {
            out.push(self.instances[order[k]].snapshot());
            k = k + 1;
        }
        out
    }
}

} // verus!
