//! The encapsulation session that explicit messages travel over.

use vstd::prelude::*;

use crate::eip::{decode_encaps, encaps_ok, EncapsPacket, EncapsStatus, EncapsView, SocketAddress};
use crate::error::{Error, Result};

verus! {

/// An encapsulation session used for explicit messaging: something that
/// sends a packet to a device and returns its reply. The library's users
/// implement it, over TCP or, in tests, with canned replies.
pub trait Session {
    /// The device answered `request` with `reply`: what an implementation
    /// promises of its exchanges. By default it promises nothing; it names
    /// the request that was handed over.
    open spec fn exchanged(&self, request: EncapsView, reply: EncapsView) -> bool {
        true
    }

    /// The address of the device at the other end of the session, as
    /// `remote_addr` reports it.
    spec fn remote(&self) -> SocketAddress;

    /// Sends a packet and waits for its reply. A failure is one of the
    /// exchange itself (see [`exchange_error`]): never a CIP status, which
    /// only a message router reply carries.
    fn send_and_receive(&self, packet: &EncapsPacket) -> (r: Result<EncapsPacket>)
        ensures
            r matches Ok(reply) ==> self.exchanged(packet@, reply@),
            r matches Err(e) ==> exchange_error(e),
    ;

    fn session_handle(&self) -> u32;

    /// The address of the device at the other end of the session.
    fn remote_addr(&self) -> (r: SocketAddress)
        ensures
            r == self.remote(),
    ;
}

/// An error of an exchange over a session: the transport failed, or the reply
/// was cut short, malformed, refused by the encapsulation layer, or for
/// another session.
pub open spec fn exchange_error(e: Error) -> bool {
    ||| e is Io
    ||| e is Truncated
    ||| e is InvalidPacket
    ||| e is Encaps
    ||| e is WrongSessionHandle
}

/// Checks a reply read from a session registered with `session_handle` (0
/// before registration): it must decode, carry a success status, and, once
/// registered, the session's handle.
pub fn check_reply(session_handle: u32, data: &[u8]) -> (r: Result<EncapsPacket>)
    ensures
        !encaps_ok(data@) ==> (r matches Err(e) && e is InvalidPacket),
        encaps_ok(data@) ==> {
            let p = decode_encaps(data@);
            if p.status != EncapsStatus::SUCCESS {
                r matches Err(Error::Encaps(st)) && st.0 == p.status
            } else if session_handle != 0 && p.session_handle != session_handle {
                r matches Err(Error::WrongSessionHandle { expected, received }) && expected == session_handle
                    && received == p.session_handle
            } else {
                r matches Ok(reply) && reply@ == p
            }
        },
{
    let reply = match EncapsPacket::decode(data) {
        Ok(p) => p,
        Err(e) => return Err(e),
    };
    if reply.status.0 != EncapsStatus::SUCCESS {
        return Err(Error::Encaps(reply.status));
    }
    if session_handle != 0 && reply.session_handle != session_handle {
        return Err(Error::WrongSessionHandle { expected: session_handle, received: reply.session_handle });
    }
    Ok(reply)
}

} // verus!
