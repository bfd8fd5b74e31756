//! The upstream VM record, the public `Machine` record, and the mapping
//! from one to the other.

use vstd::prelude::*;
use crate::query::{UpstreamQuery, UpstreamQueryModel};
use crate::text::str_eq;

verus! {

/// A raw VM entity as the upstream VM service reports it.  The gateway
/// treats it as read-only input; every field is a plain value handed over
/// by the transport layer.
pub struct VmRecord {
    /// Stable upstream identity, also the public machine identifier.
    pub uuid: String,
    /// Human-chosen VM name.
    pub alias: String,
    /// The VM's role, matched by the public `type` filter.
    pub role: String,
    pub brand: String,
    /// Current lifecycle state, in the upstream vocabulary.
    pub state: String,
    /// Image reference the VM was provisioned from.
    pub image_uuid: String,
    /// RAM allocation.
    pub ram: u64,
    /// Tag set, as key/value pairs.
    pub tags: Vec<(String, String)>,
    /// Creation timestamp, seconds since the epoch.
    pub created: u64,
    /// Whether the VM is a docker container.
    pub docker: bool,
    /// Whether the VM has been destroyed and survives only as a tombstone.
    pub destroyed: bool,
    /// Credential pairs (user, secret) attached to the VM; empty when the
    /// upstream holds none.
    pub credentials: Vec<(String, String)>,
}

/// Mathematical image of a tag or credential pair list.
pub open spec fn pairs_view(v: Seq<(String, String)>) -> Seq<(Seq<char>, Seq<char>)> {
    v.map_values(|p: (String, String)| (p.0@, p.1@))
}

/// Mathematical image of a `VmRecord`.
pub struct VmRecordModel {
    pub uuid: Seq<char>,
    pub alias: Seq<char>,
    pub role: Seq<char>,
    pub brand: Seq<char>,
    pub state: Seq<char>,
    pub image_uuid: Seq<char>,
    pub ram: u64,
    pub tags: Seq<(Seq<char>, Seq<char>)>,
    pub created: u64,
    pub docker: bool,
    pub destroyed: bool,
    pub credentials: Seq<(Seq<char>, Seq<char>)>,
}

impl View for VmRecord {
    type V = VmRecordModel;

    open spec fn view(&self) -> VmRecordModel {
        VmRecordModel {
            uuid: self.uuid@,
            alias: self.alias@,
            role: self.role@,
            brand: self.brand@,
            state: self.state@,
            image_uuid: self.image_uuid@,
            ram: self.ram,
            tags: pairs_view(self.tags@),
            created: self.created,
            docker: self.docker,
            destroyed: self.destroyed,
            credentials: pairs_view(self.credentials@),
        }
    }
}

/// The fixed public display states of a machine.  Every upstream state maps
/// to exactly one of these; `Unknown` is the designated image of any
/// unrecognized upstream value, so one malformed record can never abort a
/// listing.
#[derive(Clone, Copy, PartialEq, Eq, Structural, Debug)]
pub enum MachineState {
    Provisioning,
    Running,
    Stopping,
    Stopped,
    Deleted,
    Failed,
    Unknown,
}

/// The total, fixed mapping from an upstream state value to the public
/// display state.
pub open spec fn spec_state_of(s: Seq<char>) -> MachineState {
    if s == "provisioning"@ {
        MachineState::Provisioning
    } else if s == "running"@ {
        MachineState::Running
    } else if s == "stopping"@ {
        MachineState::Stopping
    } else if s == "stopped"@ {
        MachineState::Stopped
    } else if s == "destroyed"@ {
        MachineState::Deleted
    } else if s == "failed"@ {
        MachineState::Failed
    } else {
        MachineState::Unknown
    }
}

/// Maps an upstream state value to the public display state.
pub fn state_of(s: &str) -> (r: MachineState)
    ensures
        r == spec_state_of(s@),
{
    if str_eq(s, "provisioning") {
        MachineState::Provisioning
    } else if str_eq(s, "running") {
        MachineState::Running
    } else if str_eq(s, "stopping") {
        MachineState::Stopping
    } else if str_eq(s, "stopped") {
        MachineState::Stopped
    } else if str_eq(s, "destroyed") {
        MachineState::Deleted
    } else if str_eq(s, "failed") {
        MachineState::Failed
    } else {
        MachineState::Unknown
    }
}

/// The state mapping is total with `Unknown` as its only fallback: an
/// upstream state outside the six recognized values maps to `Unknown`,
/// never to a failure.
pub proof fn lemma_unrecognized_state_is_unknown(s: Seq<char>)
    requires
        s != "provisioning"@,
        s != "running"@,
        s != "stopping"@,
        s != "stopped"@,
        s != "destroyed"@,
        s != "failed"@,
    ensures
        spec_state_of(s) == MachineState::Unknown,
{
}

/// The display label of each public state, as it appears in the response
/// body.
pub open spec fn spec_state_label(s: MachineState) -> Seq<char> {
    match s {
        MachineState::Provisioning => "provisioning"@,
        MachineState::Running => "running"@,
        MachineState::Stopping => "stopping"@,
        MachineState::Stopped => "stopped"@,
        MachineState::Deleted => "deleted"@,
        MachineState::Failed => "failed"@,
        MachineState::Unknown => "unknown"@,
    }
}

/// The display label of a public state.
pub fn state_label(s: &MachineState) -> (r: &'static str)
    ensures
        r@ == spec_state_label(*s),
{
    match s {
        MachineState::Provisioning => "provisioning",
        MachineState::Running => "running",
        MachineState::Stopping => "stopping",
        MachineState::Stopped => "stopped",
        MachineState::Deleted => "deleted",
        MachineState::Failed => "failed",
        MachineState::Unknown => "unknown",
    }
}

/// The public output entity: one machine as the response body presents it.
/// `credentials` is `Some` only when credential data was requested and the
/// record carries any; `None` means the field is omitted from the body
/// entirely.
pub struct Machine {
    pub id: String,
    pub name: String,
    pub machine_type: String,
    pub brand: String,
    pub state: MachineState,
    pub image: String,
    pub memory: u64,
    pub tags: Vec<(String, String)>,
    pub created: u64,
    pub credentials: Option<Vec<(String, String)>>,
}

/// Mathematical image of a `Machine`.
pub struct MachineModel {
    pub id: Seq<char>,
    pub name: Seq<char>,
    pub machine_type: Seq<char>,
    pub brand: Seq<char>,
    pub state: MachineState,
    pub image: Seq<char>,
    pub memory: u64,
    pub tags: Seq<(Seq<char>, Seq<char>)>,
    pub created: u64,
    pub credentials: Option<Seq<(Seq<char>, Seq<char>)>>,
}

impl View for Machine {
    type V = MachineModel;

    open spec fn view(&self) -> MachineModel {
        MachineModel {
            id: self.id@,
            name: self.name@,
            machine_type: self.machine_type@,
            brand: self.brand@,
            state: self.state,
            image: self.image@,
            memory: self.memory,
            tags: pairs_view(self.tags@),
            created: self.created,
            credentials: match self.credentials {
                Some(c) => Some(pairs_view(c@)),
                None => None,
            },
        }
    }
}

/// The one machine a VM record maps to.  Total: defined for every record
/// and every credential flag.
pub open spec fn spec_to_machine(vm: VmRecordModel, with_credentials: bool) -> MachineModel {
    MachineModel {
        id: vm.uuid,
        name: vm.alias,
        machine_type: vm.role,
        brand: vm.brand,
        state: spec_state_of(vm.state),
        image: vm.image_uuid,
        memory: vm.ram,
        tags: vm.tags,
        created: vm.created,
        credentials: if with_credentials && vm.credentials.len() > 0 {
            Some(vm.credentials)
        } else {
            None
        },
    }
}

pub fn clone_pairs(v: &Vec<(String, String)>) -> (r: Vec<(String, String)>)
    ensures
        pairs_view(r@) == pairs_view(v@),
{
    let mut out: Vec<(String, String)> = Vec::new();
    let mut i: usize = 0;
    while i < v.len()
        invariant
            i <= v.len(),
            out@.len() == i,
            forall|j: int|
                0 <= j < i ==> (#[trigger] out@[j].0@, out@[j].1@) == (v@[j].0@, v@[j].1@),
        decreases v.len() - i,
    {
        let (k, val) = &v[i];
        out.push((k.clone(), val.clone()));
        i += 1;
    }
    proof {
        assert(pairs_view(out@) =~= pairs_view(v@));
    }
    out
}

/// Maps one upstream VM record to exactly one public machine.  Never
/// fails: an unrecognized state becomes `MachineState::Unknown`, and when
/// `with_credentials` is false the credentials field is absent from the
/// result.
pub fn to_machine(vm: &VmRecord, with_credentials: bool) -> (m: Machine)
    ensures
        m@ == spec_to_machine(vm@, with_credentials),
{
    let credentials = if with_credentials && vm.credentials.len() > 0 {
        Some(clone_pairs(&vm.credentials))
    } else {
        None
    };
    Machine {
        id: vm.uuid.clone(),
        name: vm.alias.clone(),
        machine_type: vm.role.clone(),
        brand: vm.brand.clone(),
        state: state_of(vm.state.as_str()),
        image: vm.image_uuid.clone(),
        memory: vm.ram,
        tags: clone_pairs(&vm.tags),
        created: vm.created,
        credentials,
    }
}

/// When credential data was not requested, no mapped machine carries a
/// credentials field at all.
pub proof fn lemma_credentials_omitted(vm: VmRecordModel)
    ensures
        spec_to_machine(vm, false).credentials is None,
{
}

/// When credential data was requested, every mapped machine whose record
/// carries credential data presents it unchanged.
pub proof fn lemma_credentials_included(vm: VmRecordModel)
    requires
        vm.credentials.len() > 0,
    ensures
        spec_to_machine(vm, true).credentials == Some(vm.credentials),
{
}

/// Whether a VM record satisfies an upstream query: the model of the
/// upstream service's own filter contract, used by an in-process
/// collaborator and by tests that play the collaborator.
pub open spec fn spec_vm_matches(q: UpstreamQueryModel, vm: VmRecordModel) -> bool {
    &&& (q.role matches Some(r) ==> vm.role == r)
    &&& (q.brand matches Some(b) ==> vm.brand == b)
    &&& (q.alias matches Some(a) ==> vm.alias == a)
    &&& (q.state matches Some(s) ==> vm.state == s)
    &&& (q.image_uuid matches Some(i) ==> vm.image_uuid == i)
    &&& (q.ram matches Some(r) ==> vm.ram == r)
    &&& (q.docker matches Some(d) ==> vm.docker == d)
    &&& (q.include_destroyed == Some(true) || !vm.destroyed)
    &&& (q.tag_key matches Some(k) ==> exists|j: int| 0 <= j < vm.tags.len() && vm.tags[j].0 == k)
}

fn opt_str_matches(f: &Option<String>, v: &str) -> (r: bool)
    ensures
        r == (match f {
            Some(s) => v@ == s@,
            None => true,
        }),
{
    match f {
        Some(s) => str_eq(v, s.as_str()),
        None => true,
    }
}

/// Decides whether a VM record satisfies an upstream query.
pub fn vm_matches(q: &UpstreamQuery, vm: &VmRecord) -> (r: bool)
    ensures
        r == spec_vm_matches(q@, vm@),
{
    if !opt_str_matches(&q.role, vm.role.as_str()) {
        return false;
    }
    if !opt_str_matches(&q.brand, vm.brand.as_str()) {
        return false;
    }
    if !opt_str_matches(&q.alias, vm.alias.as_str()) {
        return false;
    }
    if !opt_str_matches(&q.state, vm.state.as_str()) {
        return false;
    }
    if !opt_str_matches(&q.image_uuid, vm.image_uuid.as_str()) {
        return false;
    }
    if let Some(r) = q.ram {
        if vm.ram != r {
            return false;
        }
    }
    if let Some(d) = q.docker {
        if vm.docker != d {
            return false;
        }
    }
    let include_destroyed = match q.include_destroyed {
        Some(b) => b,
        None => false,
    };
    if vm.destroyed && !include_destroyed {
        return false;
    }
    if let Some(k) = &q.tag_key {
        let mut j: usize = 0;
        let mut found = false;
        while j < vm.tags.len()
            invariant
                j <= vm.tags.len(),
                found == exists|i: int| 0 <= i < j && vm@.tags[i].0 == k@,
            decreases vm.tags.len() - j,
        {
            proof {
                assert(vm@.tags[j as int].0 == vm.tags@[j as int].0@);
            }
            if str_eq(vm.tags[j].0.as_str(), k.as_str()) {
                found = true;
            }
            j += 1;
        }
        if !found {
            return false;
        }
    }
    true
}

} // verus!
