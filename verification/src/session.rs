//! One debug session: the exclusive owner of one attached probe/target
//! pair, together with its recorded state (breakpoint table, RTT
//! attachment, activity timestamps).
//!
//! Every hardware-facing method takes `&mut self`, so operations on one
//! session are serialized by construction: no two can be in flight at
//! once. Each such method refreshes the activity timestamp first, whether
//! or not the operation then succeeds. A failed operation leaves all other
//! recorded state exactly as it was.

use vstd::prelude::*;
use crate::DebugError;
use crate::breakpoints::BreakpointTable;
use crate::hw;
use crate::registers::{
    bulk_read_plan, name_in_plan, names_of, reg_id_of, resolve_read_set, subseq_of,
};
use crate::rtt::{
    assemble_channels, channels_split_at, channels_indexed, check_rtt_read, check_rtt_write,
    clone_channels, has_down_channel, has_up_channel, rtt_read_allowed, rtt_write_allowed,
    RttInfo,
};

verus! {

/// How long a halt or reset-and-halt waits for the core, in milliseconds.
pub const HALT_TIMEOUT_MS: u64 = 500;

/// Metadata of the probe a session runs over, captured at attach time.
pub struct ProbeInfo {
    pub identifier: String,
    pub vendor_id: u16,
    pub product_id: u16,
    pub serial_number: Option<String>,
    pub probe_type: String,
}

/// Metadata of the attached target, captured at attach time.
pub struct TargetInfo {
    pub chip_name: String,
    pub architecture: String,
    pub core_type: String,
    pub ram_start: u64,
    pub ram_size: usize,
    pub flash_start: u64,
    pub flash_size: usize,
}

/// A snapshot of the core: program counter, stack pointer, and whether
/// and why it is halted.
pub struct CoreStatus {
    pub pc: u64,
    pub sp: u64,
    pub is_halted: bool,
    pub halt_reason: Option<String>,
}

/// The record of one completed flash operation.
pub struct FlashResult {
    pub bytes_programmed: usize,
    pub programming_time_ms: u64,
    pub verification_result: bool,
}

/// A status snapshot is consistent: it carries a halt reason exactly when
/// it reports the core halted.
pub open spec fn status_consistent(st: CoreStatus) -> bool {
    st.is_halted <==> st.halt_reason is Some
}

/// An address lies in the target's flash region.
pub open spec fn flash_covered(t: TargetInfo, address: u64) -> bool {
    t.flash_start <= address < t.flash_start + t.flash_size
}

/// The target metadata describes ranges whose ends fit in an address.
pub open spec fn target_ranges_ok(t: TargetInfo) -> bool {
    t.flash_start + t.flash_size <= u64::MAX && t.ram_start + t.ram_size <= u64::MAX
}

/// One logical debug session.
pub struct DebugSession {
    id: String,
    hw: probe_rs::Session,
    rtt_link: Option<probe_rs::rtt::Rtt>,
    probe_info: ProbeInfo,
    target_info: TargetInfo,
    breakpoints: BreakpointTable,
    rtt: Option<RttInfo>,
    created_at: i64,
    last_activity: i64,
}

impl DebugSession {
    /// The session id, as a character sequence.
    pub closed spec fn id_str(&self) -> Seq<char> {
        self.id@
    }

    /// The probe metadata captured at attach time.
    pub closed spec fn probe_meta(&self) -> ProbeInfo {
        self.probe_info
    }

    /// The target metadata captured at attach time.
    pub closed spec fn target_meta(&self) -> TargetInfo {
        self.target_info
    }

    /// The breakpoint table.
    pub closed spec fn bp_table(&self) -> BreakpointTable {
        self.breakpoints
    }

    /// The breakpoint table as a map from address to id.
    pub open spec fn bp_map(&self) -> Map<u64, u32> {
        self.bp_table().bp_map()
    }

    /// The recorded RTT attachment, `None` while detached.
    pub closed spec fn rtt_state(&self) -> Option<RttInfo> {
        self.rtt
    }

    /// The creation timestamp, in milliseconds since the Unix epoch.
    pub closed spec fn created_ms(&self) -> i64 {
        self.created_at
    }

    /// Session validity: the breakpoint table is well formed, the target
    /// ranges fit, and an RTT hardware link is held exactly while an
    /// attachment is recorded.
    pub closed spec fn wf(&self) -> bool {
        &&& self.breakpoints.wf()
        &&& target_ranges_ok(self.target_info)
        &&& (self.rtt is Some <==> self.rtt_link is Some)
    }

    /// The immutable identity of a session: id and attach-time metadata.
    pub open spec fn same_identity(a: DebugSession, b: DebugSession) -> bool {
        &&& a.id_str() == b.id_str()
        &&& a.probe_meta() == b.probe_meta()
        &&& a.target_meta() == b.target_meta()
        &&& a.created_ms() == b.created_ms()
    }

    /// All recorded state other than the activity timestamp: identity,
    /// breakpoint table and RTT attachment.
    pub open spec fn same_recorded(a: DebugSession, b: DebugSession) -> bool {
        &&& Self::same_identity(a, b)
        &&& a.bp_table() == b.bp_table()
        &&& a.rtt_state() == b.rtt_state()
    }

    /// Opens the session: sets the probe speed, attaches to the target
    /// chip (under reset when asked to), and records the attach-time
    /// metadata, an empty breakpoint table and a detached RTT state.
    pub fn new(
        probe: probe_rs::probe::Probe,
        target_chip: String,
        speed_khz: u32,
        connect_under_reset: bool,
    ) -> (r: Result<DebugSession, DebugError>)
        ensures
            r matches Ok(s) ==> {
                &&& s.wf()
                &&& s.bp_map() == Map::<u64, u32>::empty()
                &&& s.rtt_state() is None
                &&& s.id_str().len() >= 8
                &&& s.id_str().subrange(0, 8) == "session_"@
                &&& s.target_meta().ram_start == 0x2000_0000u64
                &&& s.target_meta().ram_size == 128 * 1024usize
                &&& s.target_meta().flash_start == 0x0800_0000u64
                &&& s.target_meta().flash_size == 512 * 1024usize
            },
            r matches Err(e) ==> e matches DebugError::ConnectionFailed(_),
    {
        let mut probe = probe;
        let identifier = hw::probe_name(&probe);
        let probe_info = ProbeInfo {
            identifier,
            vendor_id: 0,
            product_id: 0,
            serial_number: None,
            probe_type: "Unknown".to_owned(),
        };
        if let Err(e) = hw::probe_set_speed(&mut probe, speed_khz) {
            return Err(DebugError::connection("Failed to set speed: ", e));
        }
        let attached = if connect_under_reset {
            hw::probe_attach_under_reset(probe, target_chip.as_str())
        } else {
            hw::probe_attach(probe, target_chip.as_str())
        };
        let session = match attached {
            Ok(s) => s,
            Err(e) => {
                return Err(DebugError::connection("Failed to attach: ", e));
            }
        };
        let (chip_name, architecture) = hw::target_identity(&session);
        let target_info = TargetInfo {
            chip_name,
            architecture,
            core_type: "Unknown".to_owned(),
            ram_start: 0x2000_0000,
            ram_size: 128 * 1024,
            flash_start: 0x0800_0000,
            flash_size: 512 * 1024,
        };
        let uuid = hw::new_session_uuid();
        let mut id = "session_".to_owned();
        id.append(uuid.as_str());
        proof {
            reveal_strlit("session_");
            assert(id@.subrange(0, 8) =~= "session_"@);
        }
        let now = hw::current_time_millis();
        Ok(DebugSession {
            id,
            hw: session,
            rtt_link: None,
            probe_info,
            target_info,
            breakpoints: BreakpointTable::new(),
            rtt: None,
            created_at: now,
            last_activity: now,
        })
    }

    /// The session id.
    pub fn id(&self) -> (r: &str)
        ensures
            r@ == self.id_str(),
    {
        self.id.as_str()
    }

    /// Whether this session carries the given id.
    pub fn id_matches(&self, session_id: &String) -> (r: bool)
        ensures
            r == (self.id_str() == session_id@),
    {
        self.id == *session_id
    }

    /// The probe metadata captured at attach time.
    pub fn probe_info(&self) -> (r: ProbeInfo)
        ensures
            r == self.probe_meta(),
    {
        ProbeInfo {
            identifier: self.probe_info.identifier.clone(),
            vendor_id: self.probe_info.vendor_id,
            product_id: self.probe_info.product_id,
            serial_number: match &self.probe_info.serial_number {
                Some(s) => Some(s.clone()),
                None => None,
            },
            probe_type: self.probe_info.probe_type.clone(),
        }
    }

    /// The target metadata captured at attach time.
    pub fn target_info(&self) -> (r: TargetInfo)
        ensures
            r == self.target_meta(),
    {
        TargetInfo {
            chip_name: self.target_info.chip_name.clone(),
            architecture: self.target_info.architecture.clone(),
            core_type: self.target_info.core_type.clone(),
            ram_start: self.target_info.ram_start,
            ram_size: self.target_info.ram_size,
            flash_start: self.target_info.flash_start,
            flash_size: self.target_info.flash_size,
        }
    }

    /// Refreshes the activity timestamp; done first by every operation,
    /// whether or not it then succeeds.
    fn touch(&mut self)
        ensures
            Self::same_recorded(*old(self), *final(self)),
            old(self).wf() ==> final(self).wf(),
    {
        self.last_activity = hw::current_time_millis();
    }

    /// Reads a core status snapshot: pc, sp, halt state and, when halted,
    /// a best-effort halt reason ("Unknown" when the lookup itself
    /// fails, never an error).
    fn read_status(&mut self) -> (r: Result<CoreStatus, DebugError>)
        requires
            old(self).wf(),
        ensures
            final(self).wf(),
            Self::same_recorded(*old(self), *final(self)),
            r matches Ok(st) ==> status_consistent(st),
            r matches Err(e) ==> e matches DebugError::InternalError(_),
    {
        let pc = match hw::core_read_register(&mut self.hw, 15) {
            Ok(v) => v,
            Err(e) => {
                return Err(DebugError::internal("Failed to read PC: ", e));
            }
        };
        let sp = match hw::core_read_register(&mut self.hw, 13) {
            Ok(v) => v,
            Err(e) => {
                return Err(DebugError::internal("Failed to read SP: ", e));
            }
        };
        let is_halted = match hw::core_is_halted(&mut self.hw) {
            Ok(v) => v,
            Err(e) => {
                return Err(DebugError::internal("Failed to check halt status: ", e));
            }
        };
        let lookup = hw::core_halt_reason(&mut self.hw);
        let halt_reason = halt_reason_text(is_halted, lookup);
        Ok(CoreStatus { pc, sp, is_halted, halt_reason })
    }

    /// Halts the target and reports the resulting core status.
    pub fn halt(&mut self) -> (r: Result<CoreStatus, DebugError>)
        requires
            old(self).wf(),
        ensures
            final(self).wf(),
            Self::same_recorded(*old(self), *final(self)),
            r matches Ok(st) ==> status_consistent(st),
            r matches Err(e) ==> e matches DebugError::InternalError(_),
    {
        self.touch();
        if let Err(e) = hw::core_halt(&mut self.hw, HALT_TIMEOUT_MS) {
            return Err(DebugError::internal("Failed to halt: ", e));
        }
        self.read_status()
    }

    /// Resumes target execution.
    pub fn run(&mut self) -> (r: Result<(), DebugError>)
        requires
            old(self).wf(),
        ensures
            final(self).wf(),
            Self::same_recorded(*old(self), *final(self)),
            r matches Err(e) ==> e matches DebugError::InternalError(_),
    {
        self.touch();
        match hw::core_run(&mut self.hw) {
            Ok(()) => Ok(()),
            Err(e) => Err(DebugError::internal("Failed to run: ", e)),
        }
    }

    /// Resets the target, halting it at the reset vector when asked to,
    /// and reports the resulting core status.
    pub fn reset(&mut self, halt_after_reset: bool) -> (r: Result<CoreStatus, DebugError>)
        requires
            old(self).wf(),
        ensures
            final(self).wf(),
            Self::same_recorded(*old(self), *final(self)),
            r matches Ok(st) ==> status_consistent(st),
            r matches Err(e) ==> e matches DebugError::InternalError(_),
    {
        self.touch();
        if halt_after_reset {
            if let Err(e) = hw::core_reset_and_halt(&mut self.hw, HALT_TIMEOUT_MS) {
                return Err(DebugError::internal("Failed to reset and halt: ", e));
            }
        } else {
            if let Err(e) = hw::core_reset(&mut self.hw) {
                return Err(DebugError::internal("Failed to reset: ", e));
            }
        }
        self.read_status()
    }

    /// Executes a single instruction and reports the resulting core
    /// status.
    pub fn step(&mut self) -> (r: Result<CoreStatus, DebugError>)
        requires
            old(self).wf(),
        ensures
            final(self).wf(),
            Self::same_recorded(*old(self), *final(self)),
            r matches Ok(st) ==> status_consistent(st),
            r matches Err(e) ==> e matches DebugError::InternalError(_),
    {
        self.touch();
        if let Err(e) = hw::core_step(&mut self.hw) {
            return Err(DebugError::internal("Failed to step: ", e));
        }
        self.read_status()
    }

    /// The current core status.
    pub fn get_core_status(&mut self) -> (r: Result<CoreStatus, DebugError>)
        requires
            old(self).wf(),
        ensures
            final(self).wf(),
            Self::same_recorded(*old(self), *final(self)),
            r matches Ok(st) ==> status_consistent(st),
            r matches Err(e) ==> e matches DebugError::InternalError(_),
    {
        self.touch();
        self.read_status()
    }

    /// Reads `size` bytes of target memory at `address`: on success the
    /// returned buffer holds exactly `size` bytes.
    pub fn read_memory(&mut self, address: u64, size: usize) -> (r: Result<Vec<u8>, DebugError>)
        requires
            old(self).wf(),
        ensures
            final(self).wf(),
            Self::same_recorded(*old(self), *final(self)),
            r matches Ok(v) ==> v@.len() == size,
            r matches Err(e) ==> e matches DebugError::InternalError(_),
    {
        self.touch();
        match hw::core_read_memory(&mut self.hw, address, size) {
            Ok(v) => Ok(v),
            Err(e) => Err(DebugError::internal("Failed to read memory: ", e)),
        }
    }

    /// Writes the given bytes to target memory at `address`.
    pub fn write_memory(&mut self, address: u64, data: &[u8]) -> (r: Result<(), DebugError>)
        requires
            old(self).wf(),
        ensures
            final(self).wf(),
            Self::same_recorded(*old(self), *final(self)),
            r matches Err(e) ==> e matches DebugError::InternalError(_),
    {
        self.touch();
        match hw::core_write_memory(&mut self.hw, address, data) {
            Ok(()) => Ok(()),
            Err(e) => Err(DebugError::internal("Failed to write memory: ", e)),
        }
    }

    /// Bulk register read. An empty name list reads the whole canonical
    /// set; unknown names are skipped, as is any register whose own read
    /// fails, so the call itself always succeeds with the partial result.
    /// The returned names form, in plan order and without repetition, a
    /// subsequence of the read plan for the request.
    pub fn read_registers(&mut self, register_names: &Vec<String>) -> (r: Result<
        Vec<(String, u64)>,
        DebugError,
    >)
        requires
            old(self).wf(),
        ensures
            final(self).wf(),
            Self::same_recorded(*old(self), *final(self)),
            r is Ok,
            r matches Ok(pairs) ==> pairs@.len() <= bulk_read_plan(names_of(register_names@)).len()
                && forall|j: int|
                0 <= j < pairs@.len() ==> name_in_plan(
                    bulk_read_plan(names_of(register_names@)),
                    (#[trigger] pairs@[j]).0@,
                ),
            r matches Ok(pairs) ==> subseq_of(
                pairs@.map_values(|p: (String, u64)| p.0@),
                bulk_read_plan(names_of(register_names@)).map_values(|q: (Seq<char>, u8)| q.0),
            ),
    {
        self.touch();
        let plan = resolve_read_set(register_names);
        let ghost plan_spec = bulk_read_plan(names_of(register_names@));
        let ghost plan_names = plan_spec.map_values(|q: (Seq<char>, u8)| q.0);
        proof {
            assert(plan_spec.len() == plan@.len());
            assert(plan_names.take(0) =~= Seq::<Seq<char>>::empty());
        }
        let mut pairs: Vec<(String, u64)> = Vec::new();
        let mut k: usize = 0;
        while k < plan.len()
            invariant
                plan@.map_values(|p: (String, u8)| (p.0@, p.1)) == plan_spec,
                plan_names == plan_spec.map_values(|q: (Seq<char>, u8)| q.0),
                old(self).wf(),
                self.wf(),
                Self::same_recorded(*old(self), *self),
                pairs@.len() <= k <= plan@.len(),
                plan_spec.len() == plan@.len(),
                forall|j: int|
                    0 <= j < pairs@.len() ==> name_in_plan(plan_spec, (#[trigger] pairs@[j]).0@),
                subseq_of(pairs@.map_values(|p: (String, u64)| p.0@), plan_names.take(k as int)),
            decreases plan@.len() - k,
        {
            let (name, id) = (plan[k].0.clone(), plan[k].1);
            proof {
                assert(plan_spec[k as int]
                    == (plan@.map_values(|p: (String, u8)| (p.0@, p.1)))[k as int]);
                assert(name@ == plan_spec[k as int].0);
                assert(plan_names[k as int] == plan_spec[k as int].0);
                assert(plan_names.take(k + 1) =~= plan_names.take(k as int).push(
                    plan_names[k as int],
                ));
            }
            match hw::core_read_register(&mut self.hw, id as u16) {
                Ok(value) => {
                    let ghost prior = pairs@;
                    pairs.push((name, value));
                    proof {
                        assert forall|j: int| 0 <= j < pairs@.len() implies name_in_plan(
                            plan_spec,
                            (#[trigger] pairs@[j]).0@,
                        ) by {
                            if j == pairs@.len() - 1 {
                                assert(0 <= k < plan_spec.len() && (#[trigger] plan_spec[k as int]).0
                                    == pairs@[j].0@);
                            } else {
                                assert(pairs@[j] == prior[j]);
                            }
                        }
                        assert(pairs@.map_values(|p: (String, u64)| p.0@) =~= prior.map_values(
                            |p: (String, u64)| p.0@,
                        ).push(name@));
                        crate::registers::lemma_subseq_push_both(
                            prior.map_values(|p: (String, u64)| p.0@),
                            plan_names.take(k as int),
                            name@,
                        );
                    }
                }
                Err(_) => {
                    // A register whose read fails is omitted from the
                    // partial result.
                    proof {
                        crate::registers::lemma_subseq_push_right(
                            pairs@.map_values(|p: (String, u64)| p.0@),
                            plan_names.take(k as int),
                            plan_names[k as int],
                        );
                    }
                }
            }
            k = k + 1;
        }
        proof {
            assert(plan_names.take(plan_spec.len() as int) =~= plan_names);
        }
        Ok(pairs)
    }

    /// Writes one core register. An unknown register name is rejected
    /// with `InvalidConfig` before any hardware is touched.
    pub fn write_register(&mut self, register_name: &str, value: u64) -> (r: Result<
        (),
        DebugError,
    >)
        requires
            old(self).wf(),
        ensures
            final(self).wf(),
            Self::same_recorded(*old(self), *final(self)),
            reg_id_of(register_name@) is None <==> (r matches Err(e)
                && e matches DebugError::InvalidConfig(_)),
            r matches Err(e) ==> (e matches DebugError::InvalidConfig(_) || e
                matches DebugError::InternalError(_)),
    {
        self.touch();
        let id = match crate::registers::lookup_register(register_name) {
            Some(id) => id,
            None => {
                return Err(DebugError::config("Unknown register: ", register_name.to_owned()));
            }
        };
        match hw::core_write_register(&mut self.hw, id as u16, value) {
            Ok(()) => Ok(()),
            Err(e) => Err(DebugError::internal("Failed to write register: ", e)),
        }
    }

    /// Installs a hardware breakpoint at an address and records it under
    /// a fresh id, replacing any entry already recorded there; returns
    /// the id. On failure the table is left unchanged.
    pub fn set_breakpoint(&mut self, address: u64) -> (r: Result<u32, DebugError>)
        requires
            old(self).wf(),
        ensures
            final(self).wf(),
            Self::same_identity(*old(self), *final(self)),
            final(self).rtt_state() == old(self).rtt_state(),
            r matches Ok(id) ==> id == old(self).bp_table().fresh_id() && final(self).bp_map()
                == old(self).bp_map().insert(address, id),
            r matches Err(e) ==> e matches DebugError::InternalError(_) && final(self).bp_table()
                == old(self).bp_table(),
    {
        self.touch();
        if let Err(e) = hw::core_set_hw_breakpoint(&mut self.hw, address) {
            return Err(DebugError::internal("Failed to set breakpoint: ", e));
        }
        let id = self.breakpoints.record(address);
        Ok(id)
    }

    /// Clears the breakpoint recorded at an address: removes it from the
    /// hardware and from the table. Clearing an address with no recorded
    /// breakpoint succeeds without touching hardware. On failure the
    /// table is left unchanged.
    pub fn clear_breakpoint(&mut self, address: u64) -> (r: Result<(), DebugError>)
        requires
            old(self).wf(),
        ensures
            final(self).wf(),
            Self::same_identity(*old(self), *final(self)),
            final(self).rtt_state() == old(self).rtt_state(),
            !old(self).bp_map().contains_key(address) ==> r is Ok && final(self).bp_table()
                == old(self).bp_table(),
            r is Ok ==> final(self).bp_map() == old(self).bp_map().remove(address),
            r matches Err(e) ==> e matches DebugError::InternalError(_) && final(self).bp_table()
                == old(self).bp_table() && old(self).bp_map().contains_key(address),
    {
        self.touch();
        if self.breakpoints.lookup(address).is_none() {
            proof {
                assert(old(self).bp_map() =~= old(self).bp_map().remove(address));
            }
            return Ok(());
        }
        if let Err(e) = hw::core_clear_hw_breakpoint(&mut self.hw, address) {
            return Err(DebugError::internal("Failed to clear breakpoint: ", e));
        }
        let _ = self.breakpoints.forget(address);
        Ok(())
    }

    /// The recorded breakpoints, as (id, address) pairs in recording
    /// order.
    pub fn list_breakpoints(&self) -> (r: Result<Vec<(u32, u64)>, DebugError>)
        ensures
            r matches Ok(pairs) && pairs@.len() == self.bp_table().entries_seq().len(),
            r matches Ok(pairs) ==> forall|i: int|
                0 <= i < pairs@.len() ==> #[trigger] pairs@[i] == (
                    self.bp_table().entries_seq()[i].1,
                    self.bp_table().entries_seq()[i].0,
                ),
            self.wf() ==> (r matches Ok(pairs) && forall|i: int, j: int|
                0 <= i < j < pairs@.len() ==> (#[trigger] pairs@[i]).1 != (#[trigger] pairs@[
                    j
                ]).1),
    {
        proof {
            if self.wf() {
                self.breakpoints.lemma_entries_distinct();
            }
        }
        Ok(self.breakpoints.list())
    }

    /// A valid session holds a valid breakpoint table; with this bridge a
    /// caller can carry session validity into the table-level facts, such
    /// as the entry listing behind a mapped address.
    pub proof fn lemma_table_valid(&self)
        requires
            self.wf(),
        ensures
            self.bp_table().wf(),
    {
    }

    /// Writes raw bytes through the memory path after checking that the
    /// start address lies in the target's flash region; the bytes
    /// programmed and the wall-clock duration are reported. No flash
    /// algorithm is applied, so this path is only correct for pre-erased
    /// or RAM-mapped targets, and `verify` is passed through into the
    /// result rather than checked independently.
    pub fn flash_binary(&mut self, data: &[u8], address: u64, verify: bool) -> (r: Result<
        FlashResult,
        DebugError,
    >)
        requires
            old(self).wf(),
        ensures
            final(self).wf(),
            Self::same_recorded(*old(self), *final(self)),
            !flash_covered(old(self).target_meta(), address) <==> (r matches Err(e) && e
                matches DebugError::InvalidAddress(_)),
            !flash_covered(old(self).target_meta(), address) ==> r == Err::<
                FlashResult,
                _,
            >(DebugError::InvalidAddress(address)),
            r matches Ok(fr) ==> flash_covered(old(self).target_meta(), address)
                && fr.bytes_programmed == data@.len() && fr.verification_result == verify,
            r matches Err(e) ==> e matches DebugError::InvalidAddress(_) || e
                matches DebugError::InternalError(_),
    {
        self.touch();
        let start = hw::current_time_millis();
        if !(address >= self.target_info.flash_start && address
            < self.target_info.flash_start + self.target_info.flash_size as u64) {
            return Err(DebugError::InvalidAddress(address));
        }
        if let Err(e) = hw::core_write_memory(&mut self.hw, address, data) {
            return Err(DebugError::internal("Failed to flash: ", e));
        }
        let end = hw::current_time_millis();
        Ok(FlashResult {
            bytes_programmed: data.len(),
            programming_time_ms: elapsed_ms(start, end),
            verification_result: verify,
        })
    }

    /// Programs an ELF image through the external flashing collaborator.
    /// The caller supplies the image's file size, which is what the
    /// result reports as bytes programmed.
    pub fn flash_elf(&mut self, file_path: &str, file_size: usize, verify: bool) -> (r: Result<
        FlashResult,
        DebugError,
    >)
        requires
            old(self).wf(),
        ensures
            final(self).wf(),
            Self::same_recorded(*old(self), *final(self)),
            r matches Ok(fr) ==> fr.bytes_programmed == file_size && fr.verification_result
                == verify,
            r matches Err(e) ==> e matches DebugError::InternalError(_),
    {
        self.touch();
        let start = hw::current_time_millis();
        if let Err(e) = hw::flash_file_elf(&mut self.hw, file_path, verify) {
            return Err(DebugError::internal("Failed to flash ELF: ", e));
        }
        let end = hw::current_time_millis();
        Ok(FlashResult {
            bytes_programmed: file_size,
            programming_time_ms: elapsed_ms(start, end),
            verification_result: verify,
        })
    }

    /// Attaches RTT: resolves the control block at the given address, or
    /// scans the target's RAM when none is given. On success the prior
    /// attachment, if any, is replaced wholesale by the new one, whose
    /// channel list holds the up channels first and then the down
    /// channels, each kind indexed consecutively from zero. On failure
    /// the prior attachment is kept.
    pub fn attach_rtt(&mut self, control_block_address: Option<u64>) -> (r: Result<
        RttInfo,
        DebugError,
    >)
        requires
            old(self).wf(),
        ensures
            final(self).wf(),
            Self::same_identity(*old(self), *final(self)),
            final(self).bp_table() == old(self).bp_table(),
            r matches Ok(info) ==> (final(self).rtt_state() matches Some(st)
                && st.control_block_address == info.control_block_address && st.channels@
                == info.channels@) && channels_indexed(info.channels@),
            r matches Err(e) ==> e matches DebugError::InternalError(_) && final(self).rtt_state()
                == old(self).rtt_state(),
    {
        self.touch();
        let attached = match control_block_address {
            Some(addr) => hw::rtt_attach_exact(&mut self.hw, addr),
            None => hw::rtt_attach_scan(&mut self.hw),
        };
        let mut link = match attached {
            Ok(l) => l,
            Err(e) => {
                return Err(DebugError::internal("Failed to attach RTT: ", e));
            }
        };
        let ptr = hw::rtt_control_block_ptr(&link);
        let ups = hw::rtt_up_channel_meta(&mut link);
        let downs = hw::rtt_down_channel_meta(&mut link);
        let ghost n_up = ups@.len() as int;
        let channels = assemble_channels(ups, downs);
        proof {
            assert(channels_split_at(channels@, n_up));
        }
        let stored = RttInfo { control_block_address: ptr, channels: clone_channels(&channels) };
        let info = RttInfo { control_block_address: ptr, channels };
        proof {
            assert(stored.channels@ == info.channels@);
        }
        self.rtt = Some(stored);
        self.rtt_link = Some(link);
        proof {
            assert(self.rtt matches Some(st) && st.channels@ == info.channels@
                && st.control_block_address == info.control_block_address);
        }
        Ok(info)
    }

    /// Detaches RTT: unconditionally clears the recorded attachment and
    /// drops the hardware link. Always succeeds, also when already
    /// detached, and leaves no channel state behind.
    pub fn detach_rtt(&mut self) -> (r: Result<(), DebugError>)
        requires
            old(self).wf(),
        ensures
            final(self).wf(),
            Self::same_identity(*old(self), *final(self)),
            final(self).bp_table() == old(self).bp_table(),
            r is Ok,
            final(self).rtt_state() is None,
    {
        self.touch();
        self.rtt = None;
        self.rtt_link = None;
        Ok(())
    }

    /// Reads up to `max_bytes` from an RTT up channel, returning only the
    /// bytes currently available, without waiting. Fails with
    /// `InvalidConfig` — before any hardware is touched — while detached
    /// or when the attachment records no up channel with that index.
    pub fn read_rtt(&mut self, channel: usize, max_bytes: usize) -> (r: Result<
        Vec<u8>,
        DebugError,
    >)
        requires
            old(self).wf(),
        ensures
            final(self).wf(),
            Self::same_recorded(*old(self), *final(self)),
            !rtt_read_allowed(old(self).rtt_state(), channel) <==> (r matches Err(e)
                && e matches DebugError::InvalidConfig(_)),
            old(self).rtt_state() is None ==> (r matches Err(DebugError::InvalidConfig(m)) && m@
                == "RTT not attached"@),
            (old(self).rtt_state() matches Some(st) && !has_up_channel(st.channels@, channel))
                ==> (r matches Err(DebugError::InvalidConfig(m)) && m@
                == "RTT up channel not found: "@ + crate::dec_seq(channel as nat)),
            r matches Ok(v) ==> v@.len() <= max_bytes,
            r matches Err(e) ==> (e matches DebugError::InvalidConfig(_) || e
                matches DebugError::InternalError(_)),
    {
        self.touch();
        if let Err(e) = check_rtt_read(&self.rtt, channel) {
            return Err(e);
        }
        match &mut self.rtt_link {
            Some(link) => {
                match hw::rtt_channel_read(&mut self.hw, link, channel, max_bytes) {
                    Ok(v) => Ok(v),
                    Err(e) => Err(DebugError::internal("Failed to read RTT: ", e)),
                }
            }
            None => {
                proof {
                    assert(false);
                }
                Err(DebugError::internal("Failed to read RTT: ", String::new()))
            }
        }
    }

    /// Writes bytes to an RTT down channel and reports how many the
    /// channel accepted, which may be fewer than were given; no retry is
    /// performed. Fails with `InvalidConfig` — before any hardware is
    /// touched — while detached or when the attachment records no down
    /// channel with that index.
    pub fn write_rtt(&mut self, channel: usize, data: &[u8]) -> (r: Result<usize, DebugError>)
        requires
            old(self).wf(),
        ensures
            final(self).wf(),
            Self::same_recorded(*old(self), *final(self)),
            !rtt_write_allowed(old(self).rtt_state(), channel) <==> (r matches Err(e)
                && e matches DebugError::InvalidConfig(_)),
            old(self).rtt_state() is None ==> (r matches Err(DebugError::InvalidConfig(m)) && m@
                == "RTT not attached"@),
            (old(self).rtt_state() matches Some(st) && !has_down_channel(st.channels@, channel))
                ==> (r matches Err(DebugError::InvalidConfig(m)) && m@
                == "RTT down channel not found: "@ + crate::dec_seq(channel as nat)),
            r matches Ok(n) ==> n <= data@.len(),
            r matches Err(e) ==> (e matches DebugError::InvalidConfig(_) || e
                matches DebugError::InternalError(_)),
    {
        self.touch();
        if let Err(e) = check_rtt_write(&self.rtt, channel) {
            return Err(e);
        }
        match &mut self.rtt_link {
            Some(link) => {
                match hw::rtt_channel_write(&mut self.hw, link, channel, data) {
                    Ok(n) => Ok(n),
                    Err(e) => Err(DebugError::internal("Failed to write RTT: ", e)),
                }
            }
            None => {
                proof {
                    assert(false);
                }
                Err(DebugError::internal("Failed to write RTT: ", String::new()))
            }
        }
    }
}

/// The halt-reason field of a status snapshot, from the halt flag and the
/// outcome of the reason lookup: `None` while running; the reported
/// reason when halted and the lookup gave one; the sentinel "Unknown"
/// when halted but the lookup failed or gave nothing — a reason lookup
/// failure after a confirmed halt never fails the whole status call.
pub fn halt_reason_text(is_halted: bool, lookup: Result<Option<String>, String>) -> (r: Option<
    String,
>)
    ensures
        !is_halted ==> r is None,
        is_halted ==> r is Some,
        is_halted ==> (lookup matches Ok(Some(t)) ==> r == Some(t)),
        is_halted && !(lookup matches Ok(Some(_))) ==> (r matches Some(u) && u@ == "Unknown"@),
{
    if !is_halted {
        None
    } else {
        match lookup {
            Ok(Some(t)) => Some(t),
            Ok(None) => Some("Unknown".to_owned()),
            Err(_) => Some("Unknown".to_owned()),
        }
    }
}

/// The wall-clock span between two millisecond readings, clamped to zero
/// when the clock went backwards.
pub fn elapsed_ms(start: i64, end: i64) -> (r: u64)
    ensures
        end >= start ==> r == end - start,
        end < start ==> r == 0,
{
    if end >= start {
        let d: i128 = (end as i128) - (start as i128);
        d as u64
    } else {
        0
    }
}

} // verus!
