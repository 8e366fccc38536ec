//! The library's cross-function guarantees, written down and proved over
//! the same spec functions its contracts use.

use vstd::prelude::*;
use crate::breakpoints::BreakpointTable;
use crate::registers::{bulk_read_plan, canonical_plan, reg_id_of, read_plan};
use crate::registry::DebugSessionManager;
use crate::rtt::{channels_split_at, rtt_read_allowed, RttInfo};
use crate::session::DebugSession;

verus! {

/// Lifecycle: a closed session is invisible. Once an id is stored
/// nowhere — which `close_session` ensures of the id it removed — the id
/// list behind `list_sessions` excludes it at every position, and
/// `get_session` on it can only fail with `InvalidSession`, whose
/// contract ties success to `contains_id`.
pub proof fn lemma_closed_session_invisible(m: DebugSessionManager, id: Seq<char>)
    requires
        !m.contains_id(id),
    ensures
        forall|i: int| 0 <= i < m.ids().len() ==> #[trigger] m.ids()[i] != id,
{
}

/// Breakpoint round trip: recording a breakpoint makes it listed under
/// its address with its id; clearing removes it; clearing once more
/// changes nothing — over the address-to-id map that `set_breakpoint`
/// and `clear_breakpoint` maintain.
pub proof fn lemma_breakpoint_round_trip(m: Map<u64, u32>, address: u64, id: u32)
    ensures
        m.insert(address, id).contains_key(address),
        m.insert(address, id)[address] == id,
        !m.insert(address, id).remove(address).contains_key(address),
        m.insert(address, id).remove(address).remove(address) == m.insert(address, id).remove(
            address,
        ),
{
    assert(m.insert(address, id).remove(address).remove(address) =~= m.insert(address, id).remove(
        address,
    ));
}

/// Register defaults: an empty name list reads exactly the canonical
/// sixteen-register plan, and a single unknown name reads nothing at
/// all, so the bulk read returns an empty result rather than an error.
pub proof fn lemma_register_read_defaults(unknown: Seq<char>)
    requires
        reg_id_of(unknown) is None,
    ensures
        bulk_read_plan(Seq::<Seq<char>>::empty()) == canonical_plan(),
        canonical_plan().len() == 16,
        bulk_read_plan(seq![unknown]) == Seq::<(Seq<char>, u8)>::empty(),
{
    assert(seq![unknown].drop_last() =~= Seq::<Seq<char>>::empty());
    assert(seq![unknown].last() == unknown);
    assert(read_plan(Seq::<Seq<char>>::empty()) == Seq::<(Seq<char>, u8)>::empty());
    assert(read_plan(seq![unknown]) == read_plan(seq![unknown].drop_last()) + Seq::<(
        Seq<char>,
        u8,
    )>::empty());
    assert(read_plan(seq![unknown]) =~= Seq::<(Seq<char>, u8)>::empty());
}

/// Breakpoint round trip, listing half: an address the table maps — as
/// it does right after `set_breakpoint` records it — appears among the
/// entries behind `list_breakpoints`, under the id it maps to; and an
/// address the table no longer maps appears nowhere there.
pub proof fn lemma_breakpoint_listed(t: BreakpointTable, address: u64)
    requires
        t.wf(),
    ensures
        t.bp_map().contains_key(address) ==> exists|i: int|
            0 <= i < t.entries_seq().len() && (#[trigger] t.entries_seq()[i]) == (
                address,
                t.bp_map()[address],
            ),
        !t.bp_map().contains_key(address) ==> forall|i: int|
            0 <= i < t.entries_seq().len() ==> (#[trigger] t.entries_seq()[i]).0 != address,
{
    t.lemma_map_entries_agree();
    if t.bp_map().contains_key(address) {
        let i = choose|i: int|
            0 <= i < t.entries_seq().len() && (#[trigger] t.entries_seq()[i]).0 == address;
        assert(t.entries_seq()[i] == (address, t.bp_map()[address]));
    }
}

/// RTT state machine: while detached a read of any channel is refused
/// (`read_rtt` then fails with `InvalidConfig` before touching
/// hardware), and after an attach that recorded `k` up channels a read
/// of any channel index below `k` passes the guard. Detaching returns the
/// state to `None`, so the first clause covers the detached-again state
/// too.
pub proof fn lemma_rtt_state_machine(info: RttInfo, k: int, channel: usize)
    requires
        channels_split_at(info.channels@, k),
        channel < k,
    ensures
        !rtt_read_allowed(None, channel),
        rtt_read_allowed(Some(info), channel),
{
    assert(info.channels@[channel as int].direction is Up
        && info.channels@[channel as int].index == channel);
}

/// Idempotent detach: `detach_rtt` ends with no attachment whatever the
/// state before was, and always succeeds; so after two detaches in a
/// row both calls have succeeded and the states after the first and the
/// second are the same: no channel state is left either time.
pub proof fn lemma_detach_idempotent(after_first: DebugSession, after_second: DebugSession)
    requires
        after_first.rtt_state() is None,
        after_second.rtt_state() is None,
    ensures
        after_first.rtt_state() == after_second.rtt_state(),
        after_second.rtt_state() is None,
{
}

} // verus!
