//! Bringing up a Touch Bar that hangs behind a T2 chip: finding it on the USB,
//! and resetting it.

use vstd::prelude::*;
use vstd::string::*;

use crate::text::{
    all_digits, begins_with, decimal, decimal_is_read_back, decimal_text, digits_value, is_digit,
    number, number_body, number_up_to, parse_up_to, same, starts_with, trim, trimmed,
};

verus! {

/// How long to wait for the device and for the display behind it, in seconds.
pub const ENUMERATION_TIMEOUT: u64 = 30;

pub const DISPLAY_TIMEOUT: u64 = 15;

/// A device on the USB: where it is, whether that is a directory, and the contents
/// of its `idVendor` and `idProduct` files. A file that is not there is absent, and
/// one that cannot be read is empty.
pub struct UsbDevice {
    pub path: String,
    pub directory: bool,
    pub vendor: Option<String>,
    pub product: Option<String>,
}

/// The devices on the USB, as far as they can be listed. An entry that cannot be
/// read is absent.
pub enum UsbListing {
    Missing,
    Unreadable,
    Devices(Vec<Option<UsbDevice>>),
}

/// Why the Touch Bar was not found or not reset.
#[derive(Clone, Copy, PartialEq, Eq, Structural, Debug)]
pub enum UsbProblem {
    /// There is no list of devices.
    NoListing,
    /// The list, or an entry of it, cannot be read.
    Unreadable,
    /// The Touch Bar is not among the devices.
    NotFound,
    /// The Touch Bar was not looked for.
    NotLookedFor,
    /// The number of its bus, or its number there, cannot be read.
    NoBus,
    NoDevice,
    /// One of these is no number.
    BadBus,
    BadDevice,
}

/// Whether a device is the Touch Bar.
pub open spec fn is_touch_bar(d: UsbDevice) -> bool {
    &&& d.directory
    &&& d.vendor matches Some(v)
    &&& d.product matches Some(p)
    &&& trimmed(v@) == "05ac"@
    &&& trimmed(p@) == "8302"@
}

/// The path of the first Touch Bar among devices, unless an entry before it cannot
/// be read.
pub open spec fn first_touch_bar(v: Seq<Option<UsbDevice>>) -> Result<Seq<char>, UsbProblem>
    decreases v.len(),
{
    if v.len() == 0 {
        Err(UsbProblem::NotFound)
    } else {
        match v[0] {
            Some(d) => if is_touch_bar(d) {
                Ok(d.path@)
            } else {
                first_touch_bar(v.subrange(1, v.len() as int))
            },
            None => Err(UsbProblem::Unreadable),
        }
    }
}

/// Where the Touch Bar is.
pub open spec fn touch_bar_at(listing: UsbListing) -> Result<Seq<char>, UsbProblem> {
    match listing {
        UsbListing::Missing => Err(UsbProblem::NoListing),
        UsbListing::Unreadable => Err(UsbProblem::Unreadable),
        UsbListing::Devices(v) => first_touch_bar(v@),
    }
}

/// A number with at least three digits.
pub open spec fn three_digits(n: nat) -> Seq<char> {
    if n < 10 {
        "00"@ + decimal(n)
    } else if n < 100 {
        "0"@ + decimal(n)
    } else {
        decimal(n)
    }
}

/// Writes a number with at least three digits.
fn three_digit_text(n: u64) -> (r: String)
    ensures
        r@ == three_digits(n as nat),
{
    let digits = decimal_text(n);
    if n < 10 {
        let mut s = "00".to_owned();
        s.append(digits.as_str());
        s
    } else if n < 100 {
        let mut s = "0".to_owned();
        s.append(digits.as_str());
        s
    } else {
        digits
    }
}

/// A number below 256 in a file.
pub open spec fn small_number(contents: Seq<char>) -> Option<nat> {
    number_up_to(trimmed(contents), 255)
}

/// The file of a device on the USB.
pub open spec fn usb_file(bus: nat, device: nat) -> Seq<char> {
    "/dev/bus/usb/"@ + three_digits(bus) + "/"@ + three_digits(device)
}

/// The file that the reset goes to, from the numbers of the bus and the device as
/// far as they could be read.
pub open spec fn reset_file(
    path: Seq<char>,
    bus: Option<String>,
    device: Option<String>,
) -> Result<Seq<char>, UsbProblem> {
    if path.len() == 0 {
        Err(UsbProblem::NotLookedFor)
    } else {
        match bus {
            None => Err(UsbProblem::NoBus),
            Some(b) => match small_number(b@) {
                None => Err(UsbProblem::BadBus),
                Some(bus_number) => match device {
                    None => Err(UsbProblem::NoDevice),
                    Some(d) => match small_number(d@) {
                        None => Err(UsbProblem::BadDevice),
                        Some(device_number) => Ok(usb_file(bus_number, device_number)),
                    },
                },
            },
        }
    }
}

/// What to do while waiting for the Touch Bar.
#[derive(Clone, Copy, PartialEq, Eq, Structural, Debug)]
pub enum WaitStep {
    /// It is there.
    Found,
    /// Wait for a second, and look again.
    Sleep,
    /// It took too long.
    TimedOut,
}

/// What to do while waiting for the display after a reset.
#[derive(Clone, Copy, PartialEq, Eq, Structural, Debug)]
pub enum DisplayStep {
    /// It is there, as the entry of that number. Give it two seconds to settle.
    Found(usize),
    /// Wait for half a second, and look again.
    Sleep,
    /// It took too long. Go on without it.
    GiveUp,
}

/// The Touch Bar behind a T2 chip.
pub struct T2TouchBar {
    pub usb_device_path: String,
}

impl T2TouchBar {
    /// Not looked for yet.
    pub fn new() -> (r: T2TouchBar)
        ensures
            r.usb_device_path@ == Seq::<char>::empty(),
    {
        T2TouchBar { usb_device_path: String::new() }
    }

    /// Finds the Touch Bar, and keeps where it is.
    pub fn find_device(&mut self, listing: &UsbListing) -> (r: Result<(), UsbProblem>)
        ensures
            match touch_bar_at(*listing) {
                Ok(path) => r is Ok && final(self).usb_device_path@ == path,
                Err(problem) => r == Err::<(), UsbProblem>(problem) && *final(self) == *old(self),
            },
    {
        let v = match listing {
            UsbListing::Missing => {
                return Err(UsbProblem::NoListing);
            },
            UsbListing::Unreadable => {
                return Err(UsbProblem::Unreadable);
            },
            UsbListing::Devices(v) => v,
        };
        let n = v.len();
        let mut i: usize = 0;
        assert(v@.subrange(0, n as int) =~= v@);
        while i < n
            invariant
                i <= n,
                n == v@.len(),
                *self == *old(self),
                listing == UsbListing::Devices(*v),
                first_touch_bar(v@.subrange(i as int, n as int)) == first_touch_bar(v@),
            decreases n - i,
        {
            let ghost rest = v@.subrange(i as int, n as int);
            assert(rest[0] == v@[i as int]);
            assert(rest.subrange(1, rest.len() as int) =~= v@.subrange(i + 1, n as int));
            match &v[i] {
                Some(d) => {
                    if d.directory && holds(&d.vendor, "05ac") && holds(&d.product, "8302") {
                        self.usb_device_path = d.path.clone();
                        return Ok(());
                    }
                },
                None => {
                    return Err(UsbProblem::Unreadable);
                },
            }
            i += 1;
        }
        Err(UsbProblem::NotFound)
    }

    /// The file that a reset goes to. The numbers of the bus and the device come
    /// from the `busnum` and `devnum` files, as far as they could be read.
    pub fn reset(&self, bus: &Option<String>, device: &Option<String>) -> (r: Result<
        String,
        UsbProblem,
    >)
        ensures
            match r {
                Ok(file) => reset_file(self.usb_device_path@, *bus, *device) == Ok::<
                    Seq<char>,
                    UsbProblem,
                >(file@),
                Err(problem) => reset_file(self.usb_device_path@, *bus, *device) == Err::<
                    Seq<char>,
                    UsbProblem,
                >(problem),
            },
    {
        proof {
            reveal_strlit("");
        }
        if self.usb_device_path.as_str().is_empty() {
            return Err(UsbProblem::NotLookedFor);
        }
        let bus_number: u64 = match bus {
            Some(b) => {
                let t = trim(b.as_str());
                match parse_up_to(t.as_str(), 255) {
                    Some(n) => n,
                    None => {
                        return Err(UsbProblem::BadBus);
                    },
                }
            },
            None => {
                return Err(UsbProblem::NoBus);
            },
        };
        let device_number: u64 = match device {
            Some(d) => {
                let t = trim(d.as_str());
                match parse_up_to(t.as_str(), 255) {
                    Some(n) => n,
                    None => {
                        return Err(UsbProblem::BadDevice);
                    },
                }
            },
            None => {
                return Err(UsbProblem::NoDevice);
            },
        };
        let mut file = "/dev/bus/usb/".to_owned();
        file.append(three_digit_text(bus_number).as_str());
        file.append("/");
        file.append(three_digit_text(device_number).as_str());
        Ok(file)
    }

    /// Decides what to do while waiting for the Touch Bar, after that many seconds,
    /// and keeps where it is once it is found.
    pub fn wait_for_enumeration(&mut self, elapsed: u64, timeout: u64, listing: &UsbListing) -> (r:
        WaitStep)
        ensures
            r == if elapsed >= timeout {
                WaitStep::TimedOut
            } else if touch_bar_at(*listing) is Ok {
                WaitStep::Found
            } else {
                WaitStep::Sleep
            },
            match touch_bar_at(*listing) {
                Ok(path) => elapsed < timeout ==> final(self).usb_device_path@ == path,
                Err(_) => *final(self) == *old(self),
            },
            elapsed >= timeout ==> *final(self) == *old(self),
    {
        if elapsed >= timeout {
            return WaitStep::TimedOut;
        }
        match self.find_device(listing) {
            Ok(()) => WaitStep::Found,
            Err(_) => WaitStep::Sleep,
        }
    }
}

/// Whether a file is there and holds a word.
fn holds(contents: &Option<String>, word: &str) -> (r: bool)
    ensures
        r == match *contents {
            Some(c) => trimmed(c@) == word@,
            None => false,
        },
{
    match contents {
        Some(c) => {
            let t = trim(c.as_str());
            same(t.as_str(), word)
        },
        None => false,
    }
}

/// The first of several names that is that of a graphics card.
pub open spec fn first_card(names: Seq<String>, from: int) -> Option<int>
    decreases names.len() - from,
{
    if from < 0 || from >= names.len() {
        None
    } else if begins_with(names[from]@, "card"@) {
        Some(from)
    } else {
        first_card(names, from + 1)
    }
}

/// Decides what to do while waiting for the display, after that many seconds. The
/// names are those in the directory of displays, if that is there.
pub fn wait_for_display(elapsed: u64, names: &Vec<String>) -> (r: DisplayStep)
    ensures
        r == if elapsed >= DISPLAY_TIMEOUT {
            DisplayStep::GiveUp
        } else {
            match first_card(names@, 0) {
                Some(i) => DisplayStep::Found(i as usize),
                None => DisplayStep::Sleep,
            }
        },
        r == DisplayStep::GiveUp <==> elapsed >= 15,
{
    if elapsed >= DISPLAY_TIMEOUT {
        return DisplayStep::GiveUp;
    }
    let n = names.len();
    let mut i: usize = 0;
    while i < n
        invariant
            i <= n,
            n == names@.len(),
            first_card(names@, i as int) == first_card(names@, 0),
            elapsed < DISPLAY_TIMEOUT,
        decreases n - i,
    {
        if starts_with(names[i].as_str(), "card") {
            return DisplayStep::Found(i);
        }
        i += 1;
    }
    DisplayStep::Sleep
}

/// Whether this is a computer with a T2 chip: by the name of the product, if it can
/// be read, or by the driver for the chip.
pub fn is_t2_macbook(product: &Option<String>, driver: bool) -> (r: bool)
    ensures
        r == (driver || match *product {
            Some(p) => {
                let t = trimmed(p@);
                begins_with(t, "MacBookPro15"@) || begins_with(t, "MacBookPro16"@) || begins_with(
                    t,
                    "MacBookAir8"@,
                ) || begins_with(t, "MacBookAir9"@)
            },
            None => false,
        }),
{
    match product {
        Some(p) => {
            let t = trim(p.as_str());
            let s = t.as_str();
            if starts_with(s, "MacBookPro15") || starts_with(s, "MacBookPro16") || starts_with(
                s,
                "MacBookAir8",
            ) || starts_with(s, "MacBookAir9") {
                return true;
            }
        },
        None => {},
    }
    driver
}

/// The Touch Bar that is found is a directory of the maker and the product that it
/// has, and none before it is one; an entry that cannot be read ends the search.
pub proof fn touch_bar_is_found(v: Seq<Option<UsbDevice>>, i: int)
    requires
        0 <= i < v.len(),
        v[i] is Some,
        forall|j: int| 0 <= j < i ==> (#[trigger] v[j]) is Some && !is_touch_bar(v[j]->0),
    ensures
        ({
            let d = v[i]->0;
            d.directory && d.vendor is Some && d.product is Some && trimmed((d.vendor->0)@)
                == "05ac"@ && trimmed((d.product->0)@) == "8302"@ ==> first_touch_bar(v) == Ok::<
                Seq<char>,
                UsbProblem,
            >(d.path@)
        }),
    decreases v.len(),
{
    if i > 0 {
        let rest = v.subrange(1, v.len() as int);
        assert(v[0] is Some);
        assert(rest[i - 1] == v[i]);
        assert forall|j: int| 0 <= j < i - 1 implies (#[trigger] rest[j]) is Some && !is_touch_bar(
            rest[j]->0,
        ) by {
            assert(rest[j] == v[j + 1]);
        }
        touch_bar_is_found(rest, i - 1);
    }
}

/// Where no device is the Touch Bar, none is found.
pub proof fn no_touch_bar_is_found(v: Seq<Option<UsbDevice>>)
    requires
        forall|j: int| 0 <= j < v.len() && (#[trigger] v[j]) is Some ==> !is_touch_bar(v[j]->0),
    ensures
        first_touch_bar(v) is Err,
        (forall|j: int| 0 <= j < v.len() ==> (#[trigger] v[j]) is Some) ==> first_touch_bar(v) == Err::<
            Seq<char>,
            UsbProblem,
        >(UsbProblem::NotFound),
    decreases v.len(),
{
    if v.len() > 0 {
        let rest = v.subrange(1, v.len() as int);
        assert forall|j: int| 0 <= j < rest.len() && (#[trigger] rest[j]) is Some implies !is_touch_bar(
            rest[j]->0,
        ) by {
            assert(rest[j] == v[j + 1]);
        }
        if forall|j: int| 0 <= j < v.len() ==> (#[trigger] v[j]) is Some {
            assert forall|j: int| 0 <= j < rest.len() implies (#[trigger] rest[j]) is Some by {
                assert(rest[j] == v[j + 1]);
            }
        }
        assert(v[0] is Some ==> !is_touch_bar(v[0]->0));
        no_touch_bar_is_found(rest);
    }
}

/// A number of at most three digits is written with three, and read as the same
/// number.
pub proof fn three_digits_are_written(n: nat)
    requires
        n < 1_000,
    ensures
        three_digits(n).len() == 3,
        number(three_digits(n)) == Some(n),
{
    reveal_strlit("0");
    reveal_strlit("00");
    assert("0"@ =~= seq!['0']);
    assert("00"@ =~= seq!['0', '0']);
    decimal_is_read_back(n);
    reveal_with_fuel(decimal, 4);
    reveal_with_fuel(digits_value, 4);
    let s = three_digits(n);
    let d = decimal(n);
    if n < 10 {
        assert(s =~= seq!['0', '0', d[0]]);
        assert(s.subrange(0, 2) =~= seq!['0', '0']);
        assert(seq!['0', '0'].subrange(0, 1) =~= seq!['0']);
        assert(seq!['0'].subrange(0, 0) =~= Seq::<char>::empty());
        assert(d.subrange(0, 0) =~= Seq::<char>::empty());
    } else if n < 100 {
        assert(d.len() == 2);
        assert(s =~= seq!['0', d[0], d[1]]);
        assert(s.subrange(0, 2) =~= seq!['0', d[0]]);
        assert(seq!['0', d[0]].subrange(0, 1) =~= seq!['0']);
        assert(seq!['0'].subrange(0, 0) =~= Seq::<char>::empty());
        assert(d.subrange(0, 1) =~= seq![d[0]]);
        assert(seq![d[0]].subrange(0, 0) =~= Seq::<char>::empty());
    }
    assert(all_digits(s)) by {
        assert forall|i: int| 0 <= i < s.len() implies is_digit(#[trigger] s[i]) by {
            if n < 10 {
                if i == 2 {
                    assert(s[i] == d[0]);
                    assert(is_digit(d[0]));
                }
            } else if n < 100 {
                if i > 0 {
                    assert(s[i] == d[i - 1]);
                    assert(is_digit(d[i - 1]));
                }
            } else {
                assert(is_digit(d[i]));
            }
        }
    }
    assert(is_digit(s[0]));
    assert(number_body(s) == s);
}

/// The reset goes to the file of the device, by the number of its bus and its own
/// number there, as they are read; each that is missing or no number below 256 has
/// its own problem, the bus first.
pub proof fn reset_goes_to_the_device(
    path: Seq<char>,
    bus: Option<String>,
    device: Option<String>,
)
    requires
        path.len() > 0,
    ensures
        ({
            let read = |s: Option<String>| match s {
                Some(t) => number_up_to(trimmed(t@), 255),
                None => None,
            };
            let r = reset_file(path, bus, device);
            match (read(bus), read(device)) {
                (Some(b), Some(d)) => r == Ok::<Seq<char>, UsbProblem>(
                    "/dev/bus/usb/"@ + three_digits(b) + seq!['/'] + three_digits(d),
                ),
                (Some(_), None) => r == Err::<Seq<char>, UsbProblem>(
                    if device is None {
                        UsbProblem::NoDevice
                    } else {
                        UsbProblem::BadDevice
                    },
                ),
                (None, _) => r == Err::<Seq<char>, UsbProblem>(
                    if bus is None {
                        UsbProblem::NoBus
                    } else {
                        UsbProblem::BadBus
                    },
                ),
            }
        }),
        reset_file(Seq::empty(), bus, device) is Err,
{
    reveal_strlit("/");
    assert("/"@ =~= seq!['/']);
}

/// The graphics card that is found is the first name that begins as one.
pub proof fn found_card_is_first(names: Seq<String>, from: int)
    requires
        0 <= from <= names.len(),
    ensures
        match first_card(names, from) {
            Some(i) => from <= i < names.len() && begins_with(names[i]@, "card"@) && forall|j: int|
                from <= j < i ==> !begins_with((#[trigger] names[j])@, "card"@),
            None => forall|j: int|
                from <= j < names.len() ==> !begins_with((#[trigger] names[j])@, "card"@),
        },
    decreases names.len() - from,
{
    if from < names.len() && !begins_with(names[from]@, "card"@) {
        found_card_is_first(names, from + 1);
    }
}

} // verus!
