//! Argument and response records of the tool-facing layer.
//!
//! These are plain value records: the caller-facing protocol layer fills
//! the argument records (applying the defaults below where a field is
//! absent) and renders the response records. Addresses travel as strings
//! there; parsing them is the caller-facing layer's job, so the records
//! here hold them as received.

use vstd::prelude::*;

verus! {

/// Arguments of the probe-enumeration tool; it takes none.
pub struct ListProbesArgs {
}

/// Arguments for creating a session.
pub struct ConnectArgs {
    /// Probe selector: a serial number, a numeric index, or "auto" for
    /// the first available probe.
    pub probe_selector: String,
    /// Target chip name.
    pub target_chip: String,
    /// Connection speed in kHz.
    pub speed_khz: u32,
    /// Whether to connect under reset.
    pub connect_under_reset: bool,
    /// Whether to halt after connecting.
    pub halt_after_connect: bool,
}

/// Arguments for closing a session.
pub struct DisconnectArgs {
    pub session_id: String,
}

/// Arguments for reading a session's probe metadata.
pub struct ProbeInfoArgs {
    pub session_id: String,
}

/// Arguments for halting the target.
pub struct HaltArgs {
    pub session_id: String,
}

/// Arguments for resuming the target.
pub struct RunArgs {
    pub session_id: String,
}

/// Arguments for resetting the target.
pub struct ResetArgs {
    pub session_id: String,
    /// Reset type: "hardware" or "software".
    pub reset_type: String,
    /// Whether to halt after reset.
    pub halt_after_reset: bool,
}

/// Arguments for single-stepping the target.
pub struct StepArgs {
    pub session_id: String,
}

/// Arguments for reading the core status.
pub struct GetStatusArgs {
    pub session_id: String,
}

/// Arguments for reading target memory.
pub struct ReadMemoryArgs {
    pub session_id: String,
    /// Memory address, as received (hex or decimal text).
    pub address: String,
    /// Number of bytes to read.
    pub size: usize,
    /// Output format name.
    pub format: String,
}

/// Arguments for writing target memory.
pub struct WriteMemoryArgs {
    pub session_id: String,
    /// Memory address, as received (hex or decimal text).
    pub address: String,
    /// Data to write, as received.
    pub data: String,
    /// Input format name.
    pub format: String,
}

/// Arguments for setting a breakpoint.
pub struct SetBreakpointArgs {
    pub session_id: String,
    /// Breakpoint address, as received (hex or decimal text).
    pub address: String,
    /// Breakpoint type: "hardware" or "software".
    pub breakpoint_type: String,
}

/// Arguments for clearing a breakpoint.
pub struct ClearBreakpointArgs {
    pub session_id: String,
    /// Breakpoint address, as received (hex or decimal text).
    pub address: String,
}

/// Arguments for erasing flash.
pub struct FlashEraseArgs {
    pub session_id: String,
    /// Erase type: "all" for the whole chip, "sectors" for a range.
    pub erase_type: String,
    /// Start address for a sector erase.
    pub address: Option<String>,
    /// Size in bytes for a sector erase.
    pub size: Option<u32>,
}

/// Arguments for programming a firmware file.
pub struct FlashProgramArgs {
    pub session_id: String,
    /// Path of the file to program.
    pub file_path: String,
    /// File format: "auto", "elf", "hex" or "bin".
    pub format: String,
    /// Base address for raw binary files.
    pub base_address: Option<String>,
    /// Whether to verify after programming.
    pub verify: bool,
}

/// Arguments for verifying flash contents.
pub struct FlashVerifyArgs {
    pub session_id: String,
    /// File to verify against.
    pub file_path: Option<String>,
    /// Hex data to verify against, alternatively.
    pub data: Option<String>,
    /// Start address of the verification.
    pub address: String,
    /// Number of bytes to verify.
    pub size: u32,
}

/// Arguments for the flash-then-run convenience operation.
pub struct RunFirmwareArgs {
    pub session_id: String,
    /// Path of the firmware file.
    pub file_path: String,
    /// File format: "auto", "elf", "hex" or "bin".
    pub format: String,
    /// Whether to reset after flashing.
    pub reset_after_flash: bool,
    /// Whether to attach RTT after the reset.
    pub attach_rtt: bool,
    /// RTT attach timeout in milliseconds.
    pub rtt_timeout_ms: u32,
}

/// Arguments for attaching RTT.
pub struct RttAttachArgs {
    pub session_id: String,
    /// Control-block address; scanned for when absent.
    pub control_block_address: Option<String>,
    /// Memory ranges to search for the control block.
    pub memory_ranges: Option<Vec<MemoryRange>>,
}

/// One memory range, as received.
pub struct MemoryRange {
    pub start: String,
    pub end: String,
}

/// Arguments for detaching RTT.
pub struct RttDetachArgs {
    pub session_id: String,
}

/// Arguments for reading an RTT up channel.
pub struct RttReadArgs {
    pub session_id: String,
    /// RTT channel number.
    pub channel: u32,
    /// Maximum bytes to read.
    pub max_bytes: usize,
    /// Timeout in milliseconds.
    pub timeout_ms: u64,
}

/// Arguments for writing an RTT down channel.
pub struct RttWriteArgs {
    pub session_id: String,
    /// RTT channel number.
    pub channel: u32,
    /// Data to write, as received.
    pub data: String,
    /// Data encoding: "utf8", "hex" or "binary".
    pub encoding: String,
}

/// Arguments for listing RTT channels.
pub struct RttChannelsArgs {
    pub session_id: String,
}

/// Probe metadata, as rendered to callers.
pub struct ProbeInfo {
    pub identifier: String,
    pub vendor_id: u16,
    pub product_id: u16,
    pub serial_number: Option<String>,
    pub probe_type: String,
    pub speed_khz: u32,
    pub version: String,
}

/// Target metadata, as rendered to callers.
pub struct TargetInfo {
    pub chip_name: String,
    pub architecture: String,
    pub core_type: String,
    pub memory_map: Vec<MemoryRegion>,
}

/// One region of the target's memory map.
pub struct MemoryRegion {
    pub name: String,
    pub start: u64,
    pub size: u64,
    pub access: String,
}

/// Core state, as rendered to callers.
pub struct CoreInfo {
    pub pc: u64,
    pub sp: u64,
    pub state: String,
    pub halt_reason: Option<String>,
}

/// Session state, as rendered to callers.
pub struct SessionStatus {
    pub session_id: String,
    pub connected: bool,
    pub target_state: String,
    pub created_at: String,
    pub last_activity: String,
}

/// One register value, as rendered to callers.
pub struct RegisterValue {
    pub name: String,
    pub value: u64,
    pub description: Option<String>,
}

/// One breakpoint, as rendered to callers.
pub struct Breakpoint {
    pub id: u32,
    pub address: u64,
    pub breakpoint_type: String,
    pub enabled: bool,
}

/// One completed flash operation, as rendered to callers.
pub struct FlashResult {
    pub bytes_programmed: usize,
    pub programming_time_ms: u64,
    pub verification_result: bool,
}

/// One RTT channel, as rendered to callers.
pub struct RttChannelInfo {
    pub channel: u32,
    pub name: String,
    /// "up" or "down".
    pub direction: String,
    pub buffer_size: usize,
    pub flags: u32,
}

/// The connection speed used when none is given, in kHz.
pub fn default_speed_khz() -> (r: u32)
    ensures
        r == 4000,
{
    4000
}

/// The default of the flags that are on unless given.
pub fn default_true() -> (r: bool)
    ensures
        r,
{
    true
}

/// The reset type used when none is given.
pub fn default_reset_type() -> (r: String)
    ensures
        r@ == "hardware"@,
{
    "hardware".to_owned()
}

/// The memory data format used when none is given.
pub fn default_format() -> (r: String)
    ensures
        r@ == "hex"@,
{
    "hex".to_owned()
}

/// The breakpoint type used when none is given.
pub fn default_breakpoint_type() -> (r: String)
    ensures
        r@ == "hardware"@,
{
    "hardware".to_owned()
}

/// The erase type used when none is given.
pub fn default_erase_all() -> (r: String)
    ensures
        r@ == "all"@,
{
    "all".to_owned()
}

/// The firmware file format used when none is given.
pub fn default_auto_format() -> (r: String)
    ensures
        r@ == "auto"@,
{
    "auto".to_owned()
}

/// The RTT attach timeout used when none is given, in milliseconds.
pub fn default_rtt_timeout() -> (r: u32)
    ensures
        r == 3000,
{
    3000
}

/// The RTT read size cap used when none is given, in bytes.
pub fn default_max_bytes() -> (r: usize)
    ensures
        r == 1024,
{
    1024
}

/// The RTT read timeout used when none is given, in milliseconds.
pub fn default_timeout_ms() -> (r: u64)
    ensures
        r == 1000,
{
    1000
}

/// The RTT write encoding used when none is given.
pub fn default_encoding() -> (r: String)
    ensures
        r@ == "utf8"@,
{
    "utf8".to_owned()
}

} // verus!
