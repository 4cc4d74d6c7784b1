//! The way to the device: which kind of connection is used, and how long a device that is
//! not there is waited for.

use vstd::prelude::*;

use crate::text::decimal_text;
use crate::text::join;
use crate::text::join3;
use crate::text::same_text;

verus! {

/// A kind of connection to the device.
#[derive(Debug, Clone, Copy, PartialEq, Eq, Structural)]
pub enum Transport {
    Usb,
    Serial,
}

/// The kind of connection that a name stands for.
pub open spec fn transport_of(name: Seq<char>) -> Option<Transport> {
    if name == "usb"@ {
        Some(Transport::Usb)
    } else if name == "serial"@ {
        Some(Transport::Serial)
    } else {
        None
    }
}

impl Default for Transport {
    fn default() -> (r: Self)
        ensures
            r == Transport::Usb,
    {
        Transport::Usb
    }
}

impl Transport {
    /// The kind of connection that a name stands for, or a message that there is none.
    pub fn from_str(s: &str) -> (r: Result<Self, String>)
        ensures
            s@ == "usb"@ ==> r == Ok::<Transport, String>(Transport::Usb),
            s@ == "serial"@ ==> r == Ok::<Transport, String>(Transport::Serial),
            match r {
                Ok(transport) => transport_of(s@) == Some(transport),
                Err(message) => transport_of(s@) is None && message@
                    == "Unknown transport method: "@ + s@,
            },
    {
        proof {
            reveal_strlit("usb");
            reveal_strlit("serial");
            assert("usb"@.len() != "serial"@.len());
        }
        if same_text(s, "usb") {
            Ok(Transport::Usb)
        } else if same_text(s, "serial") {
            Ok(Transport::Serial)
        } else {
            Err(join("Unknown transport method: ", s))
        }
    }
}

impl std::str::FromStr for Transport {
    type Err = String;

    fn from_str(s: &str) -> (r: Result<Self, String>)
        ensures
            s@ == "usb"@ ==> r == Ok::<Transport, String>(Transport::Usb),
            s@ == "serial"@ ==> r == Ok::<Transport, String>(Transport::Serial),
            match r {
                Ok(transport) => transport_of(s@) == Some(transport),
                Err(message) => transport_of(s@) is None && message@
                    == "Unknown transport method: "@ + s@,
            },
    {
        Transport::from_str(s)
    }
}

/// Why no device could be had.
#[derive(Debug, Clone, Copy, PartialEq, Eq, Structural)]
pub enum WaitError {
    /// There is none, and it was not to be waited for.
    NotFound,
    /// There was none for the time that it was to be waited for.
    Timeout,
}

impl WaitError {
    /// The message that the error is shown with.
    pub open spec fn shown(self) -> Seq<char> {
        match self {
            WaitError::NotFound => "Device not found"@,
            WaitError::Timeout => "Timeout waiting for the device"@,
        }
    }

    /// The message that the error is shown with.
    pub fn message(&self) -> (r: &'static str)
        ensures
            r@ == self.shown(),
    {
        match self {
            WaitError::NotFound => "Device not found",
            WaitError::Timeout => "Timeout waiting for the device",
        }
    }
}

/// What to do after looking for a device.
#[derive(Debug, Clone, Copy, PartialEq, Eq, Structural)]
pub enum WaitAction {
    /// Use the device.
    Use,
    /// Look again after this many seconds.
    Retry { after_secs: u64 },
    /// Give up.
    Fail(WaitError),
}

/// The time between two looks for a device.
pub const RETRY_SECS: u64 = 1;

/// How a device is waited for.
#[derive(Debug, Clone, Copy, PartialEq, Eq, Structural)]
pub struct DeviceWait {
    /// A device that is not there is waited for.
    pub wait: bool,
    /// The time after which no device is waited for any more, where there is one.
    pub timeout_secs: Option<u64>,
}

/// A time of `secs` seconds and `nanos` nanoseconds, in nanoseconds.
pub open spec fn nanoseconds(secs: u64, nanos: u32) -> int {
    secs * 1_000_000_000 + nanos
}

impl DeviceWait {
    /// The time that a device is waited for is over.
    pub open spec fn expired(self, secs: u64, nanos: u32) -> bool {
        match self.timeout_secs {
            Some(timeout) => nanoseconds(secs, nanos) > nanoseconds(timeout, 0),
            None => false,
        }
    }

    /// What to do after looking for a device.
    pub open spec fn decision(self, opened: bool, secs: u64, nanos: u32) -> WaitAction {
        if opened {
            WaitAction::Use
        } else if !self.wait {
            WaitAction::Fail(WaitError::NotFound)
        } else if self.expired(secs, nanos) {
            WaitAction::Fail(WaitError::Timeout)
        } else {
            WaitAction::Retry { after_secs: RETRY_SECS }
        }
    }

    /// What the user is told before a device is looked for, if anything.
    pub open spec fn announcement(self) -> Option<Seq<char>> {
        match (self.wait, self.timeout_secs) {
            (false, _) => None,
            (true, Some(timeout)) => Some(
                "Waiting for the device to be ready (timeout="@ + crate::text::decimal(
                    timeout as nat,
                ) + "s)"@,
            ),
            (true, None) => Some("Waiting for the device to be ready"@),
        }
    }

    /// What the user is told before a device is looked for, if anything.
    pub fn announce(&self) -> (r: Option<String>)
        ensures
            match r {
                Some(text) => self.announcement() == Some(text@),
                None => self.announcement() is None,
            },
    {
        if !self.wait {
            return None;
        }
        match self.timeout_secs {
            Some(timeout) => Some(
                join3(
                    "Waiting for the device to be ready (timeout=",
                    decimal_text(timeout).as_str(),
                    "s)",
                ),
            ),
            None => Some("Waiting for the device to be ready".to_owned()),
        }
    }

    /// Which of the devices that were found is opened: the first one, if there is one.
    pub fn choose_device(&self, found: usize) -> (r: Option<usize>)
        ensures
            r == (if found == 0 {
                None::<usize>
            } else {
                Some(0usize)
            }),
    {
        if found == 0 {
            None
        } else {
            Some(0)
        }
    }

    /// What to do after looking for a device: whether one was opened, and how much time
    /// has passed since the first look.
    pub fn decide(&self, opened: bool, secs: u64, nanos: u32) -> (r: WaitAction)
        ensures
            r == self.decision(opened, secs, nanos),
    {
        if opened {
            return WaitAction::Use;
        }
        if !self.wait {
            return WaitAction::Fail(WaitError::NotFound);
        }
        if let Some(timeout) = self.timeout_secs {
            let elapsed: u128 = secs as u128 * 1_000_000_000 + nanos as u128;
            let limit: u128 = timeout as u128 * 1_000_000_000;
            if elapsed > limit {
                return WaitAction::Fail(WaitError::Timeout);
            }
        }
        WaitAction::Retry { after_secs: RETRY_SECS }
    }
}

/// A device that is there is used, however long it took and whatever was asked for.
pub proof fn law_found_device_is_used(w: DeviceWait, secs: u64, nanos: u32)
    ensures
        w.decision(true, secs, nanos) == WaitAction::Use,
{
}

/// Once the time is over it stays over, and where no time was given it is never over.
pub proof fn law_timeout_is_final(w: DeviceWait, secs: u64, nanos: u32, more_secs: u64, more_nanos: u32)
    requires
        nanoseconds(secs, nanos) <= nanoseconds(more_secs, more_nanos),
    ensures
        w.decision(false, secs, nanos) is Fail ==> w.decision(false, more_secs, more_nanos)
            == w.decision(false, secs, nanos),
        w.wait && w.timeout_secs is None ==> w.decision(false, secs, nanos) is Retry,
{
}

/// A kind of connection has one name only, and a name stands for one kind only.
pub proof fn law_transport_names(a: Seq<char>, b: Seq<char>)
    requires
        transport_of(a) is Some,
        transport_of(a) == transport_of(b),
    ensures
        a == b,
{
}

/// What is done where no device was found. Without waiting the download fails at once. With
/// waiting it fails exactly if more time has passed than was given, and otherwise looks again
/// after one second; where no time was given it never fails.
pub proof fn law_waiting(w: DeviceWait, secs: u64, nanos: u32)
    requires
        nanos < 1_000_000_000,
    ensures
        !w.wait ==> w.decision(false, secs, nanos) == WaitAction::Fail(WaitError::NotFound),
        w.wait && w.timeout_secs is None ==> w.decision(false, secs, nanos)
            == (WaitAction::Retry { after_secs: 1 }),
        w.wait ==> (w.timeout_secs matches Some(t) ==> {
            let over = secs > t || (secs == t && nanos > 0);
            &&& over ==> w.decision(false, secs, nanos) == WaitAction::Fail(WaitError::Timeout)
            &&& !over ==> w.decision(false, secs, nanos) == (WaitAction::Retry { after_secs: 1 })
        }),
{
}

/// The names of the kinds of connection are `usb` and `serial`, and there are no others.
pub proof fn law_transport_of_a_name(name: Seq<char>)
    ensures
        transport_of(name) == Some(Transport::Usb) <==> name == "usb"@,
        transport_of(name) == Some(Transport::Serial) <==> name == "serial"@,
        transport_of(name) is None <==> name != "usb"@ && name != "serial"@,
{
    reveal_strlit("usb");
    reveal_strlit("serial");
    assert("usb"@.len() != "serial"@.len());
}

/// What the user is told before a device is looked for: nothing where it is not waited for,
/// and otherwise that it is, with the time in seconds where one was given.
pub proof fn law_announcement(w: DeviceWait)
    ensures
        w.announcement() is Some <==> w.wait,
        w.wait && w.timeout_secs is None ==> w.announcement()
            == Some("Waiting for the device to be ready"@),
        w.wait ==> (w.timeout_secs matches Some(t) ==> w.announcement() == Some(
            "Waiting for the device to be ready (timeout="@ + crate::text::decimal(t as nat)
                + "s)"@,
        )),
{
}

/// The two reasons for which no device could be had are shown differently: that there is
/// none, and that the time is over.
pub proof fn law_wait_errors_are_shown()
    ensures
        WaitError::NotFound.shown() == "Device not found"@,
        WaitError::Timeout.shown() == "Timeout waiting for the device"@,
{
}

/// Of the devices that are found the first one is opened, whatever is waited for, and none where
/// none is found.
pub proof fn law_first_device_is_opened(w: DeviceWait, found: usize, r: Option<usize>)
    requires
        call_ensures(DeviceWait::choose_device, (&w, found), r),
    ensures
        found == 0 ==> r is None,
        found > 0 ==> r == Some(0usize),
{
}

/// What waiting decides is what the time, the device and the wishes of the user say.
pub proof fn law_decide(w: DeviceWait, opened: bool, secs: u64, nanos: u32, r: WaitAction)
    requires
        nanos < 1_000_000_000,
        call_ensures(DeviceWait::decide, (&w, opened, secs, nanos), r),
    ensures
        r == WaitAction::Use <==> opened,
        r == WaitAction::Fail(WaitError::NotFound) <==> !opened && !w.wait,
        r == WaitAction::Fail(WaitError::Timeout) <==> !opened && w.wait && (w.timeout_secs
            matches Some(t) && (secs > t || (secs == t && nanos > 0))),
        r is Retry ==> r == (WaitAction::Retry { after_secs: 1 }),
{
    law_waiting(w, secs, nanos);
}

} // verus!
