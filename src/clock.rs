use vstd::prelude::*;

verus! {

/// Client time: microseconds since the session's anchor, kept to 32 bits.
pub open spec fn client_time_spec(elapsed_micros: u128) -> u32 {
    (elapsed_micros % 0x1_0000_0000) as u32
}

/// Server time: client time plus the offset, in 32-bit wrapping arithmetic.
pub open spec fn server_time_spec(client_time: u32, offset: u32) -> u32 {
    ((client_time + offset) % 0x1_0000_0000) as u32
}

/// The client time for a number of microseconds elapsed since the anchor.
pub fn client_time(elapsed_micros: u128) -> (r: u32)
    ensures
        r == client_time_spec(elapsed_micros),
{
    (elapsed_micros % 0x1_0000_0000) as u32
}

/// The server time for a client time and the current offset.
pub fn server_time(client_time: u32, offset: u32) -> (r: u32)
    ensures
        r == server_time_spec(client_time, offset),
{
    client_time.wrapping_add(offset)
}

/// While the sum does not wrap, server time is never behind client time.
pub proof fn lemma_server_time_not_behind(client_time: u32, offset: u32)
    requires
        client_time + offset <= u32::MAX,
    ensures
        server_time_spec(client_time, offset) >= client_time,
{
}

/// Seconds between two time-sync pings.
pub const TIMESTAMP_INTERVAL: u64 = 5;

/// Whether a time-sync ping is due, given the seconds since the last one.
pub fn time_update_due(secs_since_last: u64) -> (r: bool)
    ensures
        r == (secs_since_last >= TIMESTAMP_INTERVAL),
{
    secs_since_last >= TIMESTAMP_INTERVAL
}

/// What a time-sync reply does to the offset.
#[derive(Debug, Clone, Copy, PartialEq, Eq)]
pub enum OffsetUpdate {
    /// The reply carried no echoed client time: the offset stays.
    Unchanged,
    /// The new offset.
    Adjusted(u32),
    /// The arithmetic left 32 bits: the anchor is too old and must be renewed.
    Overflow,
}

/// The offset computed from a reply: the round trip is `receive - echoed`, the
/// server time at receipt is `server_timestamp - rtt / 2`, the offset is that
/// minus `receive`; each step must stay within `u32`.
pub open spec fn offset_update_spec(server_timestamp: u32, echoed: Option<i64>, receive_time: u32) -> OffsetUpdate {
    match echoed {
        None => OffsetUpdate::Unchanged,
        Some(e) => {
            let sent = e as u32;
            if receive_time < sent {
                OffsetUpdate::Overflow
            } else {
                let rtt = receive_time - sent;
                if server_timestamp < rtt / 2 {
                    OffsetUpdate::Overflow
                } else {
                    let at_receive = server_timestamp - rtt / 2;
                    if at_receive < receive_time {
                        OffsetUpdate::Overflow
                    } else {
                        OffsetUpdate::Adjusted((at_receive - receive_time) as u32)
                    }
                }
            }
        },
    }
}

/// Computes the new offset from a time-sync reply: the server's timestamp, the
/// client time that the reply echoes (taken to 32 bits) and the client time at receipt.
pub fn offset_update(server_timestamp: u32, echoed: Option<i64>, receive_time: u32) -> (r: OffsetUpdate)
    ensures
        r == offset_update_spec(server_timestamp, echoed, receive_time),
{
    match echoed {
        None => OffsetUpdate::Unchanged,
        Some(e) => {
            let sent = e as u32;
            let rtt = match receive_time.checked_sub(sent) {
                Some(v) => v,
                None => return OffsetUpdate::Overflow,
            };
            let at_receive = match server_timestamp.checked_sub(rtt / 2) {
                Some(v) => v,
                None => return OffsetUpdate::Overflow,
            };
            match at_receive.checked_sub(receive_time) {
                Some(v) => OffsetUpdate::Adjusted(v),
                None => OffsetUpdate::Overflow,
            }
        },
    }
}

} // verus!
