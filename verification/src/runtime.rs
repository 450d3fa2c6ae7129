//! The transport's run state: whether it runs (a mobile app suspends it in
//! the background), the generation that tells connections of an earlier run
//! apart, the window during which pairing is accepted, and which protocol an
//! incoming connection speaks.

use vstd::prelude::*;
use vstd::string::*;
use vstd::utf8::encode_utf8;
use crate::order::{bytes_less, seq_lt};
use crate::text::bytes_equal;

verus! {

/// The longest pairing window, in seconds.
pub const MAX_PAIRING_WINDOW_SECONDS: u64 = 120;

/// The generation after `g`, wrapping around.
pub open spec fn next_generation(g: u64) -> u64 {
    if g < u64::MAX { (g + 1) as u64 } else { 0 }
}

/// Work started in generation `g` may go on in state `s`.
pub open spec fn current(s: RuntimeState, g: u64) -> bool {
    s.active && s.generation == g
}

/// `s` suspended: a new generation begins and pairing closes.
pub open spec fn suspended(s: RuntimeState) -> RuntimeState {
    RuntimeState { active: false, generation: next_generation(s.generation), pairing_allowed_until: 0 }
}

/// `s` resumed: coming back from a suspension begins a new generation.
pub open spec fn resumed(s: RuntimeState) -> RuntimeState {
    RuntimeState {
        active: true,
        generation: if s.active { s.generation } else { next_generation(s.generation) },
        pairing_allowed_until: s.pairing_allowed_until,
    }
}

/// Work started before a suspension is never current again: not while the
/// run is suspended, and not after it resumes.
pub proof fn lemma_suspension_ends_earlier_work(s: RuntimeState, g: u64)
    ensures
        !current(suspended(s), g),
        current(s, g) ==> !current(resumed(suspended(s)), g),
{
}

/// The transport's run state.
#[derive(Clone, Copy, Debug, PartialEq, Eq, Structural)]
pub struct RuntimeState {
    pub active: bool,
    pub generation: u64,
    /// Unix seconds until which pairing is accepted.
    pub pairing_allowed_until: u64,
}

impl RuntimeState {
    /// Running, first generation, pairing closed.
    pub fn new() -> (s: RuntimeState)
        ensures
            s == (RuntimeState { active: true, generation: 0, pairing_allowed_until: 0 }),
    {
        RuntimeState { active: true, generation: 0, pairing_allowed_until: 0 }
    }

    /// Opens pairing for `seconds` (at most two minutes) from `now`, while
    /// running.
    pub fn allow_pairing(&mut self, now: u64, seconds: u64)
        ensures
            final(self).active == old(self).active,
            final(self).generation == old(self).generation,
            final(self).pairing_allowed_until == if !old(self).active {
                old(self).pairing_allowed_until
            } else {
                let w = if seconds <= MAX_PAIRING_WINDOW_SECONDS { seconds } else { MAX_PAIRING_WINDOW_SECONDS };
                if now + w <= u64::MAX { (now + w) as u64 } else { u64::MAX }
            },
    {
        if !self.active {
            return;
        }
        let window = if seconds <= MAX_PAIRING_WINDOW_SECONDS { seconds } else { MAX_PAIRING_WINDOW_SECONDS };
        self.pairing_allowed_until = now.saturating_add(window);
    }

    /// Suspends the run: a new generation begins and pairing closes.
    pub fn suspend(&mut self)
        ensures
            *final(self) == suspended(*old(self)),
    {
        self.active = false;
        self.generation = self.generation.wrapping_add(1);
        self.pairing_allowed_until = 0;
    }

    /// Resumes the run; coming back from a suspension begins a new
    /// generation.
    pub fn resume(&mut self)
        ensures
            *final(self) == resumed(*old(self)),
    {
        if !self.active {
            self.generation = self.generation.wrapping_add(1);
        }
        self.active = true;
    }

    /// Work started in `generation` may go on.
    pub fn is_active_generation(&self, generation: u64) -> (live: bool)
        ensures
            live == current(*self, generation),
    {
        self.active && self.generation == generation
    }

    /// Pairing is accepted at `now`.
    pub fn pairing_window_open(&self, now: u64) -> (open: bool)
        ensures
            open == (self.pairing_allowed_until >= now),
    {
        self.pairing_allowed_until >= now
    }
}

/// The protocols a connection can speak.
#[derive(Clone, Copy, Debug, PartialEq, Eq, Structural)]
pub enum ConnectionRoute {
    /// `localdrop-pair/1`: pairing a new device.
    Pairing,
    /// `localdrop/1`: a trusted device.
    Trusted,
}

/// Routes an incoming connection by the protocol it negotiated: pairing
/// only while the window is open, trusted connections always, anything
/// else refused.
pub fn route_connection(alpn: Option<&[u8]>, window_open: bool) -> (result: Result<ConnectionRoute, String>)
    ensures
        match alpn {
            Some(p) => if p@ == encode_utf8("localdrop-pair/1"@) {
                if window_open {
                    result == Ok::<ConnectionRoute, String>(ConnectionRoute::Pairing)
                } else {
                    result matches Err(e) && e@ == "当前未开放配对窗口"@
                }
            } else if p@ == encode_utf8("localdrop/1"@) {
                result == Ok::<ConnectionRoute, String>(ConnectionRoute::Trusted)
            } else {
                result matches Err(e) && e@ == "不支持的应用协议"@
            },
            None => result matches Err(e) && e@ == "不支持的应用协议"@,
        },
{
    match alpn {
        Some(p) => {
            if bytes_equal(p, "localdrop-pair/1".as_bytes()) {
                if window_open {
                    Ok(ConnectionRoute::Pairing)
                } else {
                    Err(String::from_str("当前未开放配对窗口"))
                }
            } else if bytes_equal(p, "localdrop/1".as_bytes()) {
                Ok(ConnectionRoute::Trusted)
            } else {
                Err(String::from_str("不支持的应用协议"))
            }
        },
        None => Err(String::from_str("不支持的应用协议")),
    }
}

/// Of two devices that could dial each other, the one whose id is smaller
/// (by UTF-8 bytes) dials, and only a device it is authorized to sync with.
pub fn local_should_dial(local_device_id: &str, remote_device_id: &str, authorized_sync: bool) -> (dial: bool)
    ensures
        dial == (seq_lt(encode_utf8(local_device_id@), encode_utf8(remote_device_id@)) && authorized_sync),
{
    bytes_less(local_device_id.as_bytes(), remote_device_id.as_bytes()) && authorized_sync
}

/// The longest wait between dial attempts, in seconds.
pub const MAX_RETRY_DELAY_SECONDS: u64 = 30;

/// The wait before the next dial attempt: none before the first, then one
/// second, doubling up to half a minute.
pub fn next_retry_delay(delay: u64) -> (next: u64)
    ensures
        next == if delay == 0 {
            1
        } else if delay * 2 <= MAX_RETRY_DELAY_SECONDS {
            (delay * 2) as u64
        } else {
            MAX_RETRY_DELAY_SECONDS
        },
{
    if delay == 0 {
        1
    } else if delay <= MAX_RETRY_DELAY_SECONDS / 2 {
        delay * 2
    } else {
        MAX_RETRY_DELAY_SECONDS
    }
}

/// The address to dial among a device's announced addresses, given for
/// each whether it is an IP address and a loopback one (`None` where it is
/// no IP address): the first that is not loopback, else the first at all.
pub fn preferred_address(loopback: &[Option<bool>]) -> (index: Option<usize>)
    ensures
        match index {
            Some(i) => i < loopback@.len() && loopback@[i as int] is Some && (
                (loopback@[i as int] == Some(false) && forall|j: int| 0 <= j < i ==> #[trigger] loopback@[j] != Some(false))
                || ((forall|j: int| 0 <= j < loopback@.len() ==> #[trigger] loopback@[j] != Some(false))
                    && forall|j: int| 0 <= j < i ==> #[trigger] loopback@[j] is None)
            ),
            None => forall|j: int| 0 <= j < loopback@.len() ==> #[trigger] loopback@[j] is None,
        },
{
    let mut first: Option<usize> = None;
    let mut i: usize = 0;
    while i < loopback.len()
        invariant
            i <= loopback@.len(),
            forall|j: int| 0 <= j < i ==> #[trigger] loopback@[j] != Some(false),
            match first {
                Some(f) => f < i && loopback@[f as int] is Some && forall|j: int| 0 <= j < f ==> #[trigger] loopback@[j] is None,
                None => forall|j: int| 0 <= j < i ==> #[trigger] loopback@[j] is None,
            },
        decreases loopback@.len() - i,
    {
        match loopback[i] {
            Some(false) => return Some(i),
            Some(true) => {
                if first.is_none() {
                    first = Some(i);
                }
            },
            None => {},
        }
        i = i + 1;
    }
    first
}

} // verus!
