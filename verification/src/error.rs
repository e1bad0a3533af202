//! The library's error type.

use vstd::prelude::*;

use crate::cip::GeneralStatusCode;
use crate::eip::EncapsStatus;
use crate::text::{dec, hex, pad_left, push_dec, push_hex_padded, push_hex_prefixed};

use vstd::string::*;

verus! {

#[verifier::external_type_specification]
#[verifier::external_body]
pub struct ExIoError(std::io::Error);

/// What can go wrong in encoding, decoding, and talking to a device.
#[derive(Debug)]
pub enum Error {
    /// An I/O error from a socket or file.
    Io(std::io::Error),
    /// A read needed `requested` bytes and only `available` were left.
    Truncated { requested: usize, available: usize },
    InvalidPacket(String),
    /// The device answered with a non-success encapsulation status.
    Encaps(EncapsStatus),
    WrongSessionHandle { expected: u32, received: u32 },
    /// A message router reply with a non-success general status.
    Cip { context: String, status: GeneralStatusCode, additional: Vec<u16> },
    InvalidInput(String),
    Eds(String),
    IoThreadStopped,
    Unsupported(String),
}

pub type Result<T> = core::result::Result<T, Error>;

} // verus!

verus! {

/// The kind of error a decoder reports, as its contract states it.
#[derive(Debug, Clone, Copy, PartialEq, Eq, Structural)]
pub enum Fault {
    /// `Error::Truncated`: the input ended inside a field.
    Truncated,
    /// `Error::InvalidPacket`: the input holds a value the format does not allow.
    Invalid,
}

impl Error {
    /// The error is of the kind `f`.
    pub open spec fn is_fault(&self, f: Fault) -> bool {
        match f {
            Fault::Truncated => self is Truncated,
            Fault::Invalid => self is InvalidPacket,
        }
    }
}

/// A result agrees with its specification: the same value (by view) on
/// success, an error of the specified kind on failure.
pub open spec fn agrees<T: View>(r: Result<T>, s: core::result::Result<T::V, Fault>) -> bool {
    match r {
        Ok(v) => s == Ok::<T::V, Fault>(v@),
        Err(e) => s is Err && e.is_fault(s->Err_0),
    }
}

/// `std::io::Error`'s `Display`: the error's description, as the operating
/// system gives it; what that text is is left unsaid here.
#[verifier::external_body]
fn io_error_text(e: &std::io::Error) -> String {
    e.to_string()
}

/// The additional status words of a CIP error as `{:04x?}` lists them,
/// without the brackets: four lower-case hexadecimal digits each, separated
/// by `, `.
pub open spec fn additional_text(a: Seq<u16>) -> Seq<char>
    decreases a.len(),
{
    if a.len() == 0 {
        seq![]
    } else if a.len() == 1 {
        pad_left(hex(a[0] as nat), 4, '0')
    } else {
        additional_text(a.drop_last()) + ", "@ + pad_left(hex(a.last() as nat), 4, '0')
    }
}

impl Error {
    /// The error's message, as shown to a user.
    pub fn to_string(&self) -> (r: String)
        ensures
            self is Io ==> "I/O error: "@.is_prefix_of(r@),
            self matches Error::Truncated { requested, available } ==> r@ == "not enough data: needed "@ + dec(
                requested as nat,
            ) + " bytes, "@ + dec(available as nat) + " available"@,
            self matches Error::InvalidPacket(m) ==> r@ == "invalid packet: "@ + m@,
            self matches Error::Encaps(st) ==> r@ == "encapsulation error: "@ + st.display(),
            self matches Error::WrongSessionHandle { expected, received } ==> r@ == "wrong session handle: expected "@
                + "0x"@ + pad_left(hex(expected as nat), 8, '0') + ", received "@ + "0x"@ + pad_left(
                hex(received as nat),
                8,
                '0',
            ),
            self matches Error::Cip { context, status, additional } ==> r@ == context@ + ": CIP status "@
                + status.display() + ", additional status ["@ + additional_text(additional@) + "]"@,
            self matches Error::InvalidInput(m) ==> r@ == "invalid input: "@ + m@,
            self matches Error::Eds(m) ==> r@ == "EDS: "@ + m@,
            self is IoThreadStopped ==> r@ == "IO thread is not running"@,
            self matches Error::Unsupported(m) ==> r@ == m@,
    {
        match self {
            Error::Io(e) => {
                let mut s = String::from_str("I/O error: ");
                let ghost head = s@;
                s.append(io_error_text(e).as_str());
                assert(head.is_prefix_of(s@)) by {
                    assert(s@.take(head.len() as int) =~= head);
                }
                s
            },
            Error::Truncated { requested, available } => {
                let mut s = String::from_str("not enough data: needed ");
                push_dec(&mut s, *requested as u64);
                s.append(" bytes, ");
                push_dec(&mut s, *available as u64);
                s.append(" available");
                s
            },
            Error::InvalidPacket(m) => String::from_str("invalid packet: ").concat(m.as_str()),
            Error::Encaps(status) => String::from_str("encapsulation error: ").concat(status.to_string().as_str()),
            Error::WrongSessionHandle { expected, received } => {
                let mut s = String::from_str("wrong session handle: expected ");
                push_hex_prefixed(&mut s, *expected as u64, 10);
                s.append(", received ");
                push_hex_prefixed(&mut s, *received as u64, 10);
                s
            },
            Error::Cip { context, status, additional } => {
                let mut s = String::from_str(context.as_str());
                s.append(": CIP status ");
                s.append(status.to_string().as_str());
                s.append(", additional status [");
                let ghost head = s@;
                let mut i: usize = 0;
                assert(additional@.take(0) =~= Seq::<u16>::empty());
                while i < additional.len()
                    invariant
                        i <= additional@.len(),
                        s@ == head + additional_text(additional@.take(i as int)),
                    decreases additional.len() - i,
                {
                    let ghost t = additional@.take(i + 1);
                    assert(t.drop_last() =~= additional@.take(i as int));
                    if i > 0 {
                        s.append(", ");
                    }
                    push_hex_padded(&mut s, additional[i] as u64, 4, false);
                    i = i + 1;
                    assert(s@ =~= head + additional_text(t));
                }
                assert(additional@.take(i as int) =~= additional@);
                s.append("]");
                s
            },
            Error::InvalidInput(m) => String::from_str("invalid input: ").concat(m.as_str()),
            Error::Eds(m) => String::from_str("EDS: ").concat(m.as_str()),
            Error::IoThreadStopped => String::from_str("IO thread is not running"),
            Error::Unsupported(m) => String::from_str(m.as_str()),
        }
    }
}

} // verus!
