//! How a connected device is named.

use vstd::prelude::*;
use vstd::string::StringExecFns;

verus! {

/// What the operating system tells of a serial device, as far as naming it
/// goes.
#[derive(Debug)]
pub enum PortKind {
    /// A USB device with its vendor and product numbers and, where it has one,
    /// its serial number.
    Usb { vid: u16, pid: u16, serial_number: Option<String> },
    /// Anything else.
    Other,
}

/// The character of the decimal digit `d`.
pub open spec fn digit(d: nat) -> char {
    if d == 0 {
        '0'
    } else if d == 1 {
        '1'
    } else if d == 2 {
        '2'
    } else if d == 3 {
        '3'
    } else if d == 4 {
        '4'
    } else if d == 5 {
        '5'
    } else if d == 6 {
        '6'
    } else if d == 7 {
        '7'
    } else if d == 8 {
        '8'
    } else {
        '9'
    }
}

/// `n` written in decimal digits, without leading zeros.
pub open spec fn decimal(n: nat) -> Seq<char>
    decreases n,
{
    if n < 10 {
        seq![digit(n)]
    } else {
        decimal(n / 10).push(digit(n % 10))
    }
}

/// The name of a USB device: vendor and product numbers in decimal, joined
/// by a hyphen, and after another hyphen the serial number where there is one.
pub open spec fn usb_device_id(vid: u16, pid: u16, serial_number: Option<String>) -> Seq<char> {
    let base = decimal(vid as nat) + seq!['-'] + decimal(pid as nat);
    match serial_number {
        Some(serial) => base + seq!['-'] + serial@,
        None => base,
    }
}

fn digit_str(d: u16) -> (r: &'static str)
    requires
        d < 10,
    ensures
        r@ == seq![digit(d as nat)],
{
    proof {
        reveal_strlit("0");
        reveal_strlit("1");
        reveal_strlit("2");
        reveal_strlit("3");
        reveal_strlit("4");
        reveal_strlit("5");
        reveal_strlit("6");
        reveal_strlit("7");
        reveal_strlit("8");
        reveal_strlit("9");
    }
    let r = if d == 0 {
        "0"
    } else if d == 1 {
        "1"
    } else if d == 2 {
        "2"
    } else if d == 3 {
        "3"
    } else if d == 4 {
        "4"
    } else if d == 5 {
        "5"
    } else if d == 6 {
        "6"
    } else if d == 7 {
        "7"
    } else if d == 8 {
        "8"
    } else {
        "9"
    };
    assert(r@ =~= seq![digit(d as nat)]);
    r
}

/// Writes `n` in decimal digits.
pub fn decimal_string(n: u16) -> (r: String)
    ensures
        r@ == decimal(n as nat),
    decreases n,
{
    if n < 10 {
        digit_str(n).to_owned()
    } else {
        let r = decimal_string(n / 10).concat(digit_str(n % 10));
        assert(r@ =~= decimal((n / 10) as nat).push(digit((n % 10) as nat)));
        r
    }
}

/// Names a device by what the operating system tells of it. Only USB devices
/// have a name.
pub fn get_device_id(port: &PortKind) -> (r: Option<String>)
    ensures
        match *port {
            PortKind::Usb { vid, pid, serial_number } => r is Some && r->0@ == usb_device_id(
                vid,
                pid,
                serial_number,
            ),
            PortKind::Other => r is None,
        },
{
    match port {
        PortKind::Usb { vid, pid, serial_number } => {
            proof {
                reveal_strlit("-");
            }
            let base = decimal_string(*vid).concat("-").concat(decimal_string(*pid).as_str());
            assert("-"@ =~= seq!['-']);
            match serial_number {
                Some(serial) => Some(base.concat("-").concat(serial.as_str())),
                None => Some(base),
            }
        },
        PortKind::Other => None,
    }
}

} // verus!
