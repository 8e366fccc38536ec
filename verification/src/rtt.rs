//! RTT attachment bookkeeping: the recorded control-block address and
//! channel list of one attachment, and the checks a channel access must
//! pass before any hardware is touched.
//!
//! The attachment state machine per session is Detached -> Attached ->
//! Detached, entered only by explicit attach and detach; a new attach
//! replaces the prior attachment wholesale.

use vstd::prelude::*;
use crate::DebugError;

verus! {

/// Which way an RTT channel carries data.
#[derive(Clone, Copy, Debug, PartialEq, Eq, Structural)]
pub enum ChannelDirection {
    /// Target to host.
    Up,
    /// Host to target.
    Down,
}

/// One RTT channel of an attachment.
pub struct RttChannelInfo {
    pub index: usize,
    pub name: String,
    pub direction: ChannelDirection,
    pub buffer_size: usize,
}

/// One RTT attachment: the resolved control-block address and the
/// channels it exposes, up channels first, then down channels, each kind
/// indexed consecutively from zero.
pub struct RttInfo {
    pub control_block_address: u64,
    pub channels: Vec<RttChannelInfo>,
}

/// The channel list shape an attachment records: some prefix holds the up
/// channels, indexed 0.. in order, and the rest holds the down channels,
/// indexed 0.. in order.
pub open spec fn channels_split_at(cs: Seq<RttChannelInfo>, k: int) -> bool {
    0 <= k <= cs.len() && (forall|i: int|
        0 <= i < k ==> (#[trigger] cs[i]).direction == ChannelDirection::Up && cs[i].index == i)
        && (forall|i: int|
        k <= i < cs.len() ==> (#[trigger] cs[i]).direction == ChannelDirection::Down && cs[i].index
            == i - k)
}

pub open spec fn channels_indexed(cs: Seq<RttChannelInfo>) -> bool {
    exists|k: int| #[trigger] channels_split_at(cs, k)
}

/// Whether the channel list has an up channel with the given index.
pub open spec fn has_up_channel(cs: Seq<RttChannelInfo>, index: usize) -> bool {
    exists|i: int|
        0 <= i < cs.len() && (#[trigger] cs[i]).direction == ChannelDirection::Up && cs[i].index
            == index
}

/// Whether the channel list has a down channel with the given index.
pub open spec fn has_down_channel(cs: Seq<RttChannelInfo>, index: usize) -> bool {
    exists|i: int|
        0 <= i < cs.len() && (#[trigger] cs[i]).direction == ChannelDirection::Down && cs[i].index
            == index
}

/// Whether a read of the given up channel may proceed on this attachment
/// state.
pub open spec fn rtt_read_allowed(rtt: Option<RttInfo>, index: usize) -> bool {
    match rtt {
        Some(info) => has_up_channel(info.channels@, index),
        None => false,
    }
}

/// Whether a write to the given down channel may proceed on this
/// attachment state.
pub open spec fn rtt_write_allowed(rtt: Option<RttInfo>, index: usize) -> bool {
    match rtt {
        Some(info) => has_down_channel(info.channels@, index),
        None => false,
    }
}

/// An exact copy of a channel record.
pub fn clone_channel(c: &RttChannelInfo) -> (r: RttChannelInfo)
    ensures
        r == *c,
{
    RttChannelInfo {
        index: c.index,
        name: c.name.clone(),
        direction: c.direction,
        buffer_size: c.buffer_size,
    }
}

/// An exact copy of a channel list.
pub fn clone_channels(cs: &Vec<RttChannelInfo>) -> (r: Vec<RttChannelInfo>)
    ensures
        r@ == cs@,
{
    let mut r: Vec<RttChannelInfo> = Vec::new();
    let mut i: usize = 0;
    while i < cs.len()
        invariant
            0 <= i <= cs@.len(),
            r@ =~= cs@.take(i as int),
        decreases cs@.len() - i,
    {
        r.push(clone_channel(&cs[i]));
        proof {
            assert(r@ =~= cs@.take(i + 1 as int));
        }
        i = i + 1;
    }
    proof {
        assert(cs@.take(cs@.len() as int) =~= cs@);
    }
    r
}

/// One channel record reflects one piece of enumerated channel metadata:
/// it keeps the buffer size, and the reported name or "Unknown" where
/// the hardware reports none.
pub open spec fn channel_described(c: RttChannelInfo, meta: (Option<String>, usize)) -> bool {
    c.buffer_size == meta.1 && match meta.0 {
        Some(n) => c.name == n,
        None => c.name@ == "Unknown"@,
    }
}

/// Builds the channel list an attachment records from the enumerated
/// channel metadata: one record per up channel first, indexed 0.. in
/// enumeration order, then one per down channel, likewise indexed from
/// zero; every record reflects its channel's metadata.
pub fn assemble_channels(
    ups: Vec<(Option<String>, usize)>,
    downs: Vec<(Option<String>, usize)>,
) -> (r: Vec<RttChannelInfo>)
    ensures
        r@.len() == ups@.len() + downs@.len(),
        channels_split_at(r@, ups@.len() as int),
        forall|i: int| 0 <= i < ups@.len() ==> channel_described(#[trigger] r@[i], ups@[i]),
        forall|i: int|
            0 <= i < downs@.len() ==> channel_described(
                #[trigger] r@[ups@.len() + i],
                downs@[i],
            ),
{
    let ghost oups = ups@;
    let ghost odowns = downs@;
    let total_up = ups.len();
    let total_down = downs.len();
    let mut ups = ups;
    let mut downs = downs;
    let mut r: Vec<RttChannelInfo> = Vec::new();
    proof {
        assert(ups@ =~= oups.skip(0));
    }
    let mut i: usize = 0;
    while ups.len() > 0
        invariant
            oups.len() == total_up as int,
            i + ups@.len() == oups.len(),
            ups@ == oups.skip(i as int),
            r@.len() == i,
            forall|j: int|
                0 <= j < i ==> (#[trigger] r@[j]).direction == ChannelDirection::Up && r@[j].index
                    == j && channel_described(r@[j], oups[j]),
        decreases ups@.len(),
    {
        let ghost prev = ups@;
        let (name, buffer_size) = ups.remove(0);
        proof {
            assert(prev[0] == oups[i as int]);
            assert(ups@ =~= oups.skip(i + 1));
        }
        let ghost before_push = r@;
        r.push(RttChannelInfo {
            index: i,
            name: channel_name_or_default(name),
            direction: ChannelDirection::Up,
            buffer_size,
        });
        proof {
            assert forall|j: int|
                0 <= j < i + 1 implies (#[trigger] r@[j]).direction == ChannelDirection::Up
                && r@[j].index == j && channel_described(r@[j], oups[j]) by {
                if j < i {
                    assert(r@[j] == before_push[j]);
                } else {
                    assert(r@[j] == r@.last());
                }
            }
        }
        i = i + 1;
    }
    proof {
        assert(ups@.len() == 0);
        assert(i == total_up);
        assert(downs@ =~= odowns.skip(0));
    }
    let mut d: usize = 0;
    while downs.len() > 0
        invariant
            oups.len() == total_up as int,
            odowns.len() == total_down as int,
            d + downs@.len() == odowns.len(),
            downs@ == odowns.skip(d as int),
            r@.len() == total_up as int + d,
            forall|j: int|
                0 <= j < total_up as int ==> (#[trigger] r@[j]).direction == ChannelDirection::Up
                    && r@[j].index == j && channel_described(r@[j], oups[j]),
            forall|j: int|
                total_up as int <= j < r@.len() ==> (#[trigger] r@[j]).direction
                    == ChannelDirection::Down && r@[j].index == j - total_up as int
                    && channel_described(r@[j], odowns[j - total_up as int]),
        decreases downs@.len(),
    {
        let ghost prev = downs@;
        let (name, buffer_size) = downs.remove(0);
        proof {
            assert(prev[0] == odowns[d as int]);
            assert(downs@ =~= odowns.skip(d + 1));
        }
        let ghost before_push = r@;
        r.push(RttChannelInfo {
            index: d,
            name: channel_name_or_default(name),
            direction: ChannelDirection::Down,
            buffer_size,
        });
        proof {
            assert forall|j: int|
                total_up as int <= j < r@.len() implies (#[trigger] r@[j]).direction
                == ChannelDirection::Down && r@[j].index == j - total_up as int
                && channel_described(r@[j], odowns[j - total_up as int]) by {
                if j < r@.len() - 1 {
                    assert(r@[j] == before_push[j]);
                } else {
                    assert(r@[j] == r@.last());
                }
            }
            assert forall|j: int|
                0 <= j < total_up as int implies (#[trigger] r@[j]).direction
                == ChannelDirection::Up && r@[j].index == j && channel_described(
                r@[j],
                oups[j],
            ) by {
                assert(r@[j] == before_push[j]);
            }
        }
        d = d + 1;
    }
    proof {
        assert(channels_split_at(r@, total_up as int));
    }
    r
}

/// The name a channel is recorded under: the name the hardware reports,
/// or "Unknown" for an unnamed channel.
pub fn channel_name_or_default(name: Option<String>) -> (r: String)
    ensures
        match name {
            Some(n) => r == n,
            None => r@ == "Unknown"@,
        },
{
    match name {
        Some(n) => n,
        None => "Unknown".to_owned(),
    }
}

/// The guard every RTT read passes before hardware is touched: the session
/// must be attached and the attachment must record an up channel with the
/// given index.
pub fn check_rtt_read(rtt: &Option<RttInfo>, index: usize) -> (r: Result<(), DebugError>)
    ensures
        r is Ok <==> rtt_read_allowed(*rtt, index),
        *rtt is None ==> (r matches Err(DebugError::InvalidConfig(m)) && m@
            == "RTT not attached"@),
        (*rtt matches Some(info) && !has_up_channel(info.channels@, index)) ==> (r matches Err(
            DebugError::InvalidConfig(m),
        ) && m@ == "RTT up channel not found: "@ + crate::dec_seq(index as nat)),
{
    match rtt {
        None => Err(DebugError::InvalidConfig("RTT not attached".to_owned())),
        Some(info) => {
            if find_channel(&info.channels, ChannelDirection::Up, index) {
                Ok(())
            } else {
                Err(DebugError::config("RTT up channel not found: ", crate::dec_string(
                    index as u64,
                )))
            }
        }
    }
}

/// The guard every RTT write passes before hardware is touched: the
/// session must be attached and the attachment must record a down channel
/// with the given index.
pub fn check_rtt_write(rtt: &Option<RttInfo>, index: usize) -> (r: Result<(), DebugError>)
    ensures
        r is Ok <==> rtt_write_allowed(*rtt, index),
        *rtt is None ==> (r matches Err(DebugError::InvalidConfig(m)) && m@
            == "RTT not attached"@),
        (*rtt matches Some(info) && !has_down_channel(info.channels@, index)) ==> (r matches Err(
            DebugError::InvalidConfig(m),
        ) && m@ == "RTT down channel not found: "@ + crate::dec_seq(index as nat)),
{
    match rtt {
        None => Err(DebugError::InvalidConfig("RTT not attached".to_owned())),
        Some(info) => {
            if find_channel(&info.channels, ChannelDirection::Down, index) {
                Ok(())
            } else {
                Err(DebugError::config("RTT down channel not found: ", crate::dec_string(
                    index as u64,
                )))
            }
        }
    }
}

/// Whether the channel list holds a channel of the given direction and
/// index.
fn find_channel(cs: &Vec<RttChannelInfo>, dir: ChannelDirection, index: usize) -> (r: bool)
    ensures
        r == (exists|i: int|
            0 <= i < cs@.len() && (#[trigger] cs@[i]).direction == dir && cs@[i].index == index),
{
    let mut i: usize = 0;
    while i < cs.len()
        invariant
            0 <= i <= cs@.len(),
            forall|j: int|
                0 <= j < i ==> !((#[trigger] cs@[j]).direction == dir && cs@[j].index == index),
        decreases cs@.len() - i,
    {
        if cs[i].direction == dir && cs[i].index == index {
            return true;
        }
        i = i + 1;
    }
    false
}

} // verus!
