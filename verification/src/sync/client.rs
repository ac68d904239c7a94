//! The decisions of the background sync client; the thread, the socket and
//! the channel stay with the caller.
use vstd::prelude::*;

verus! {

/// The state of the connection to the sync server.
#[derive(Debug, Clone, Copy, PartialEq, Eq, Structural)]
pub enum SyncState {
    Disconnected,
    Connecting,
    Connected,
    Error,
}

/// What the sync client tells its owner.
pub trait SyncDelegate {
    fn state_changed(&self, state: SyncState, detail: Option<String>);

    fn notes_changed(&self);
}

/// The retry count after one more failed connection: one more, held at the
/// largest `u32`.
pub open spec fn next_retry_spec(retry: u32) -> u32 {
    if retry == u32::MAX {
        u32::MAX
    } else {
        (retry + 1) as u32
    }
}

/// The seconds to wait before connecting again after `retry` failures in a
/// row: two to the power of the count, with the count held at three.
pub open spec fn retry_delay_spec(retry: u32) -> u64 {
    if retry == 0 {
        1
    } else if retry == 1 {
        2
    } else if retry == 2 {
        4
    } else {
        8
    }
}

pub fn next_retry(retry: u32) -> (r: u32)
    ensures
        r == next_retry_spec(retry),
{
    if retry == u32::MAX {
        u32::MAX
    } else {
        retry + 1
    }
}

pub fn retry_delay_secs(retry: u32) -> (d: u64)
    ensures
        d == retry_delay_spec(retry),
{
    let capped = if retry < 3 {
        retry
    } else {
        3
    };
    let mut d: u64 = 1;
    let mut i: u32 = 0;
    while i < capped
        invariant
            i <= capped <= 3,
            capped == (if retry < 3 {
                retry
            } else {
                3
            }),
            d == retry_delay_spec(i),
        decreases capped - i,
    {
        d = d * 2;
        i = i + 1;
    }
    d
}

} // verus!
