//! Trusted boundary to the debug-probe hardware stack and to the clock and
//! id-generation collaborators.
//!
//! Every function here is an `external_body` wrapper around exactly one
//! hardware-facing operation of an outside crate. Verus believes the stated
//! contracts; nothing below this layer is verified.

use vstd::prelude::*;
use std::time::Duration;
use probe_rs::MemoryInterface;
use probe_rs::probe::{DebugProbeInfo, Probe};
use probe_rs::probe::list::Lister;
use probe_rs::rtt::{Rtt, ScanRegion};

verus! {

/// The probe handle type of probe-rs, opaque to the verifier.
#[verifier::external_type_specification]
#[verifier::external_body]
pub struct ExProbe(Probe);

/// The attached-target session type of probe-rs, opaque to the verifier.
#[verifier::external_type_specification]
#[verifier::external_body]
pub struct ExHwSession(probe_rs::Session);

/// The probe-descriptor type of probe-rs, opaque to the verifier.
#[verifier::external_type_specification]
#[verifier::external_body]
pub struct ExDebugProbeInfo(DebugProbeInfo);

/// The RTT control-block handle type of probe-rs, opaque to the verifier.
#[verifier::external_type_specification]
#[verifier::external_body]
pub struct ExRtt(Rtt);

/// Relies on probe_rs::probe::list::Lister::new and Lister::list_all:
/// enumerates the debug probes currently connected to the host.
#[verifier::external_body]
pub(crate) fn list_connected_probes() -> Vec<DebugProbeInfo> {
    Lister::new().list_all()
}

/// Relies on the public fields of probe_rs::probe::DebugProbeInfo and on
/// DebugProbeInfo::probe_type: copies the descriptor fields out as plain
/// values (identifier, vendor id, product id, serial number, probe type).
#[verifier::external_body]
pub(crate) fn describe_probe(p: &DebugProbeInfo) -> (String, u16, u16, Option<String>, String) {
    (
        p.identifier.clone(),
        p.vendor_id,
        p.product_id,
        p.serial_number.clone(),
        p.probe_type(),
    )
}

/// Relies on probe_rs::probe::DebugProbeInfo::open: opens the described
/// probe, or reports the transport error as text.
#[verifier::external_body]
pub(crate) fn open_probe(p: &DebugProbeInfo) -> Result<Probe, String> {
    p.open().map_err(|e| e.to_string())
}

/// Relies on Probe::get_name: a human-readable probe identifier.
#[verifier::external_body]
pub(crate) fn probe_name(p: &Probe) -> String {
    p.get_name()
}

/// Relies on Probe::set_speed: configures the protocol speed in
/// kHz and returns the speed actually set.
#[verifier::external_body]
pub(crate) fn probe_set_speed(p: &mut Probe, speed_khz: u32) -> Result<u32, String> {
    p.set_speed(speed_khz).map_err(|e| e.to_string())
}

/// Relies on Probe::attach (with the built-in target registry):
/// attaches to the named target chip and yields the hardware session.
#[verifier::external_body]
pub(crate) fn probe_attach(
    p: Probe,
    target_chip: &str,
) -> Result<probe_rs::Session, String> {
    p.attach(target_chip, probe_rs::Permissions::default())
        .map_err(|e| e.to_string())
}

/// Relies on Probe::attach_under_reset: as probe_attach, but the
/// reset pin is held while the protocol is initialised.
#[verifier::external_body]
pub(crate) fn probe_attach_under_reset(
    p: Probe,
    target_chip: &str,
) -> Result<probe_rs::Session, String> {
    p.attach_under_reset(target_chip, probe_rs::Permissions::default())
        .map_err(|e| e.to_string())
}

/// Relies on probe_rs::Session::target, Target::name and
/// Target::architecture: the attached chip's name and architecture as text.
#[verifier::external_body]
pub(crate) fn target_identity(s: &probe_rs::Session) -> (String, String) {
    let t = s.target();
    (t.name.clone(), format!("{:?}", t.architecture()))
}

/// Relies on probe_rs::Session::core and Core::halt: requests a halt and
/// waits for it up to the given timeout.
#[verifier::external_body]
pub(crate) fn core_halt(s: &mut probe_rs::Session, timeout_ms: u64) -> Result<(), String> {
    match s.core(0).and_then(|mut c| c.halt(Duration::from_millis(timeout_ms))) {
        Ok(_) => Ok(()),
        Err(e) => Err(e.to_string()),
    }
}

/// Relies on probe_rs::Session::core and Core::run: resumes execution.
#[verifier::external_body]
pub(crate) fn core_run(s: &mut probe_rs::Session) -> Result<(), String> {
    s.core(0).and_then(|mut c| c.run()).map_err(|e| e.to_string())
}

/// Relies on probe_rs::Session::core and Core::reset: resets the target and
/// lets it run.
#[verifier::external_body]
pub(crate) fn core_reset(s: &mut probe_rs::Session) -> Result<(), String> {
    s.core(0).and_then(|mut c| c.reset()).map_err(|e| e.to_string())
}

/// Relies on probe_rs::Session::core and Core::reset_and_halt: resets the
/// target and halts it at the reset vector, within the given timeout.
#[verifier::external_body]
pub(crate) fn core_reset_and_halt(
    s: &mut probe_rs::Session,
    timeout_ms: u64,
) -> Result<(), String> {
    match s.core(0).and_then(|mut c| c.reset_and_halt(Duration::from_millis(timeout_ms))) {
        Ok(_) => Ok(()),
        Err(e) => Err(e.to_string()),
    }
}

/// Relies on probe_rs::Session::core and Core::step: executes one
/// instruction on the halted core.
#[verifier::external_body]
pub(crate) fn core_step(s: &mut probe_rs::Session) -> Result<(), String> {
    match s.core(0).and_then(|mut c| c.step()) {
        Ok(_) => Ok(()),
        Err(e) => Err(e.to_string()),
    }
}

/// Relies on probe_rs::Session::core and Core::core_halted: whether the
/// core is currently halted.
#[verifier::external_body]
pub(crate) fn core_is_halted(s: &mut probe_rs::Session) -> Result<bool, String> {
    s.core(0).and_then(|mut c| c.core_halted()).map_err(|e| e.to_string())
}

/// Relies on probe_rs::Session::core and Core::status: a textual halt
/// reason when the core reports itself halted, `None` when it is running.
#[verifier::external_body]
pub(crate) fn core_halt_reason(s: &mut probe_rs::Session) -> Result<Option<String>, String> {
    match s.core(0).and_then(|mut c| c.status()) {
        Ok(probe_rs::CoreStatus::Halted(r)) => Ok(Some(format!("{r:?}"))),
        Ok(_) => Ok(None),
        Err(e) => Err(e.to_string()),
    }
}

/// Relies on probe_rs::Session::core and MemoryInterface::read: on success
/// the whole requested block was read, so the buffer holds exactly `size`
/// bytes.
#[verifier::external_body]
pub(crate) fn core_read_memory(
    s: &mut probe_rs::Session,
    address: u64,
    size: usize,
) -> (r: Result<Vec<u8>, String>)
    ensures
        r matches Ok(v) ==> v@.len() == size,
{
    let mut buf = vec![0u8; size];
    match s.core(0).and_then(|mut c| c.read(address, &mut buf)) {
        Ok(()) => Ok(buf),
        Err(e) => Err(e.to_string()),
    }
}

/// Relies on probe_rs::Session::core and MemoryInterface::write: writes the
/// given bytes at the given address.
#[verifier::external_body]
pub(crate) fn core_write_memory(
    s: &mut probe_rs::Session,
    address: u64,
    data: &[u8],
) -> Result<(), String> {
    s.core(0).and_then(|mut c| c.write(address, data)).map_err(|e| e.to_string())
}

/// Relies on probe_rs::Session::core and Core::read_core_reg: reads the
/// core register with the given hardware register id.
#[verifier::external_body]
pub(crate) fn core_read_register(
    s: &mut probe_rs::Session,
    id: u16,
) -> Result<u64, String> {
    match s.core(0).and_then(|mut c| c.read_core_reg::<u64>(probe_rs::RegisterId(id))) {
        Ok(v) => Ok(v),
        Err(e) => Err(e.to_string()),
    }
}

/// Relies on probe_rs::Session::core and Core::write_core_reg: writes the
/// core register with the given hardware register id.
#[verifier::external_body]
pub(crate) fn core_write_register(
    s: &mut probe_rs::Session,
    id: u16,
    value: u64,
) -> Result<(), String> {
    s.core(0)
        .and_then(|mut c| c.write_core_reg(probe_rs::RegisterId(id), value))
        .map_err(|e| e.to_string())
}

/// Relies on probe_rs::Session::core and Core::set_hw_breakpoint: installs
/// a hardware breakpoint comparator at the given address.
#[verifier::external_body]
pub(crate) fn core_set_hw_breakpoint(
    s: &mut probe_rs::Session,
    address: u64,
) -> Result<(), String> {
    s.core(0).and_then(|mut c| c.set_hw_breakpoint(address)).map_err(|e| e.to_string())
}

/// Relies on probe_rs::Session::core and Core::clear_hw_breakpoint: removes
/// the hardware breakpoint at the given address.
#[verifier::external_body]
pub(crate) fn core_clear_hw_breakpoint(
    s: &mut probe_rs::Session,
    address: u64,
) -> Result<(), String> {
    s.core(0).and_then(|mut c| c.clear_hw_breakpoint(address)).map_err(|e| e.to_string())
}

/// Relies on probe_rs::Session::core and probe_rs::rtt::Rtt::attach_region
/// with ScanRegion::Exact: resolves an RTT control block at exactly the
/// given address.
#[verifier::external_body]
pub(crate) fn rtt_attach_exact(
    s: &mut probe_rs::Session,
    address: u64,
) -> Result<Rtt, String> {
    match s.core(0) {
        Ok(mut c) => Rtt::attach_region(&mut c, &ScanRegion::Exact(address))
            .map_err(|e| e.to_string()),
        Err(e) => Err(e.to_string()),
    }
}

/// Relies on probe_rs::Session::core and probe_rs::rtt::Rtt::attach_region
/// with ScanRegion::Ram: scans the target's RAM for an RTT control block.
#[verifier::external_body]
pub(crate) fn rtt_attach_scan(s: &mut probe_rs::Session) -> Result<Rtt, String> {
    match s.core(0) {
        Ok(mut c) => Rtt::attach_region(&mut c, &ScanRegion::Ram).map_err(|e| e.to_string()),
        Err(e) => Err(e.to_string()),
    }
}

/// Relies on probe_rs::rtt::Rtt::ptr: the address of the resolved RTT
/// control block.
#[verifier::external_body]
pub(crate) fn rtt_control_block_ptr(r: &Rtt) -> u64 {
    r.ptr()
}

/// Relies on probe_rs::rtt::Rtt::up_channels and on UpChannel::name and
/// UpChannel::buffer_size: the optional name and the buffer size of each up
/// channel, in channel order.
#[verifier::external_body]
pub(crate) fn rtt_up_channel_meta(r: &mut Rtt) -> Vec<(Option<String>, usize)> {
    r.up_channels()
        .iter()
        .map(|c| (c.name().map(|n| n.to_string()), c.buffer_size()))
        .collect()
}

/// Relies on probe_rs::rtt::Rtt::down_channels and on DownChannel::name and
/// DownChannel::buffer_size: the optional name and the buffer size of each
/// down channel, in channel order.
#[verifier::external_body]
pub(crate) fn rtt_down_channel_meta(r: &mut Rtt) -> Vec<(Option<String>, usize)> {
    r.down_channels()
        .iter()
        .map(|c| (c.name().map(|n| n.to_string()), c.buffer_size()))
        .collect()
}

/// Relies on probe_rs::Session::core, Rtt::up_channel and UpChannel::read:
/// a non-blocking read that returns only the bytes currently available,
/// never more than `max_bytes`.
#[verifier::external_body]
pub(crate) fn rtt_channel_read(
    s: &mut probe_rs::Session,
    r: &mut Rtt,
    index: usize,
    max_bytes: usize,
) -> (res: Result<Vec<u8>, String>)
    ensures
        res matches Ok(v) ==> v@.len() <= max_bytes,
{
    let mut buf = vec![0u8; max_bytes];
    let mut core = match s.core(0) {
        Ok(c) => c,
        Err(e) => return Err(e.to_string()),
    };
    match r.up_channel(index).ok_or_else(|| "no such up channel".to_string()) {
        Ok(ch) => match ch.read(&mut core, &mut buf) {
            Ok(n) => { buf.truncate(n); Ok(buf) }
            Err(e) => Err(e.to_string()),
        },
        Err(e) => Err(e),
    }
}

/// Relies on probe_rs::Session::core, Rtt::down_channel and
/// DownChannel::write: hands the bytes to the channel buffer and reports
/// how many were accepted, never more than were given.
#[verifier::external_body]
pub(crate) fn rtt_channel_write(
    s: &mut probe_rs::Session,
    r: &mut Rtt,
    index: usize,
    data: &[u8],
) -> (res: Result<usize, String>)
    ensures
        res matches Ok(n) ==> n <= data@.len(),
{
    let mut core = match s.core(0) {
        Ok(c) => c,
        Err(e) => return Err(e.to_string()),
    };
    match r.down_channel(index) {
        Some(ch) => ch.write(&mut core, data).map_err(|e| e.to_string()),
        None => Err("no such down channel".to_string()),
    }
}

/// Relies on probe_rs::flashing::download_file_with_options with an
/// ElfLoader: programs the ELF image at the given path into target flash,
/// verifying after programming when asked to.
#[verifier::external_body]
pub(crate) fn flash_file_elf(
    s: &mut probe_rs::Session,
    path: &str,
    verify: bool,
) -> Result<(), String> {
    let mut opts = probe_rs::flashing::DownloadOptions::default();
    opts.verify = verify;
    let loader = probe_rs::flashing::ElfLoader(probe_rs::flashing::ElfOptions::default());
    probe_rs::flashing::download_file_with_options(s, std::path::Path::new(path), loader, opts)
        .map_err(|e| e.to_string())
}

/// Relies on chrono::Utc::now and DateTime::timestamp_millis: the current
/// wall-clock time as milliseconds since the Unix epoch. The result depends
/// on the clock, so nothing is promised of it.
#[verifier::external_body]
pub(crate) fn current_time_millis() -> i64 {
    chrono::Utc::now().timestamp_millis()
}

/// Relies on uuid::Uuid::new_v4 and its Display form: a freshly drawn
/// random identifier. The result is random, so nothing is promised of it.
#[verifier::external_body]
pub(crate) fn new_session_uuid() -> String {
    uuid::Uuid::new_v4().to_string()
}

} // verus!
