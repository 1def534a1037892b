//! Key events, and how devices are opened.

use vstd::prelude::*;

use crate::text::same;

verus! {

/// Kinds of input events, and the code that ends a group of them.
pub const EV_SYN: u16 = 0;

pub const EV_KEY: u16 = 1;

pub const SYN_REPORT: u16 = 0;

/// An event for the virtual keyboard.
#[derive(Clone, Copy, PartialEq, Eq, Structural, Debug)]
pub struct InputEvent {
    pub kind: u16,
    pub code: u16,
    pub value: i32,
}

/// The events that press or release keys: one for each, and one that ends the
/// group. Without keys there are none.
pub open spec fn key_events(codes: Seq<u16>, value: i32) -> Seq<InputEvent> {
    if codes.len() == 0 {
        Seq::empty()
    } else {
        Seq::new(
            codes.len(),
            |i: int| InputEvent { kind: EV_KEY, code: codes[i], value },
        ).push(InputEvent { kind: EV_SYN, code: SYN_REPORT, value: 0 })
    }
}

/// Lists the events that press or release keys.
pub fn toggle_keys(codes: &Vec<u16>, value: i32) -> (r: Vec<InputEvent>)
    ensures
        r@ == key_events(codes@, value),
{
    let mut events: Vec<InputEvent> = Vec::new();
    let n = codes.len();
    if n == 0 {
        assert(events@ =~= key_events(codes@, value));
        return events;
    }
    let mut i: usize = 0;
    while i < n
        invariant
            i <= n,
            n == codes@.len(),
            events@.len() == i,
            forall|k: int|
                0 <= k < i ==> (#[trigger] events@[k]) == (InputEvent {
                    kind: EV_KEY,
                    code: codes@[k],
                    value,
                }),
        decreases n - i,
    {
        events.push(InputEvent { kind: EV_KEY, code: codes[i], value });
        i += 1;
    }
    events.push(InputEvent { kind: EV_SYN, code: SYN_REPORT, value: 0 });
    assert(events@ =~= key_events(codes@, value));
    events
}

/// How often the display is tried to be opened, and how long to wait in between,
/// in nanoseconds.
pub const DRM_OPEN_ATTEMPTS: u32 = 6;

pub const DRM_OPEN_RETRY_DELAY: u64 = 2_000_000_000;

/// The exit status when there is no display.
pub const EXIT_DRM_UNAVAILABLE: i32 = 75;

/// What to do after a failed attempt to open the display.
#[derive(Clone, Copy, PartialEq, Eq, Structural, Debug)]
pub enum OpenStep {
    /// Wait for [`DRM_OPEN_RETRY_DELAY`], and make this attempt.
    Retry(u32),
    /// Give up.
    GiveUp,
}

/// What to do after a failed attempt to open the display. Attempts are counted
/// from one.
pub fn after_failed_open(attempt: u32) -> (r: OpenStep)
    ensures
        r == if attempt < DRM_OPEN_ATTEMPTS {
            OpenStep::Retry((attempt + 1) as u32)
        } else {
            OpenStep::GiveUp
        },
        r == OpenStep::GiveUp <==> attempt >= 6,
{
    if attempt < DRM_OPEN_ATTEMPTS {
        OpenStep::Retry(attempt + 1)
    } else {
        OpenStep::GiveUp
    }
}

/// What to do when the display could not be opened.
#[derive(Clone, Copy, PartialEq, Eq, Structural, Debug)]
pub enum Recovery {
    /// It was not asked for.
    Disabled,
    /// This is no computer that it would help.
    OtherMachine,
    /// Reset the Touch Bar, and try to open the display once more.
    Reset,
}

/// Decides whether the Touch Bar is reset: when a variable asks for it, on a
/// computer that has one behind a T2 chip.
pub fn usb_recovery(setting: &Option<String>, t2_macbook: bool) -> (r: Recovery)
    ensures
        r == {
            let asked = match *setting {
                Some(v) => v@ == "1"@ || v@ == "true"@ || v@ == "yes"@,
                None => false,
            };
            if !asked {
                Recovery::Disabled
            } else if !t2_macbook {
                Recovery::OtherMachine
            } else {
                Recovery::Reset
            }
        },
{
    let asked = match setting {
        Some(v) => same(v.as_str(), "1") || same(v.as_str(), "true") || same(v.as_str(), "yes"),
        None => false,
    };
    if !asked {
        Recovery::Disabled
    } else if !t2_macbook {
        Recovery::OtherMachine
    } else {
        Recovery::Reset
    }
}

/// How a device file is opened: the lowest two bits of the flags say it.
pub fn access_mode(flags: i32) -> (r: (bool, bool))
    ensures
        r.0 == (flags & 3 == 0 || flags & 3 == 2),
        r.1 == (flags & 3 == 1 || flags & 3 == 2),
{
    let mode: i32 = flags & 3;
    (mode == 0 || mode == 2, mode == 1 || mode == 2)
}

} // verus!
