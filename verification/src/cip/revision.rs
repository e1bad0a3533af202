//! Major and minor revision numbers.

use vstd::prelude::*;
use vstd::string::*;

use crate::error::{Error, Result};
use crate::text::{dec, push_dec};
use crate::wire::{get_u8, put_u8};

verus! {

/// Major and minor revision, encoded as two USINTs.
#[derive(Debug, Clone, Copy, PartialEq, Eq, Structural, Default)]
pub struct CipRevision {
    pub major: u8,
    pub minor: u8,
}

/// The encoding of a revision: major, then minor.
pub open spec fn encode_revision(r: CipRevision) -> Seq<u8> {
    seq![r.major, r.minor]
}

/// Decoding a revision from the front of `s`: the revision and what follows,
/// or nothing when fewer than two bytes are left.
pub open spec fn decode_revision(s: Seq<u8>) -> Option<(CipRevision, Seq<u8>)> {
    if s.len() < 2 {
        None
    } else {
        Some((CipRevision { major: s[0], minor: s[1] }, s.skip(2)))
    }
}

impl CipRevision {
    pub fn new(major: u8, minor: u8) -> (r: Self)
        ensures
            r == (CipRevision { major, minor }),
    {
        Self { major, minor }
    }

    /// Reads the two bytes from the front of `buf`.
    pub fn decode(buf: &mut &[u8]) -> (r: Result<Self>)
        ensures
            match decode_revision(old(buf)@) {
                Some((rev, rest)) => r == Ok::<Self, Error>(rev) && final(buf)@ == rest,
                None => r matches Err(e) && e is Truncated,
            },
    {
        if buf.len() < 1 {
            return Err(Error::Truncated { requested: 1, available: buf.len() });
        }
        let major = get_u8(buf);
        if buf.len() < 1 {
            return Err(Error::Truncated { requested: 1, available: buf.len() });
        }
        let minor = get_u8(buf);
        Ok(Self { major, minor })
    }

    /// Appends the two bytes to `buf`.
    pub fn encode(&self, buf: &mut Vec<u8>)
        ensures
            final(buf)@ == old(buf)@ + encode_revision(*self),
    {
        put_u8(buf, self.major);
        put_u8(buf, self.minor);
        assert(buf@ =~= old(buf)@ + encode_revision(*self));
    }

    /// `major.minor`, e.g. `1.2`.
    pub fn to_string(&self) -> (r: String)
        ensures
            r@ == dec(self.major as nat) + "."@ + dec(self.minor as nat),
    {
        let mut s = String::new();
        push_dec(&mut s, self.major as u64);
        s.append(".");
        push_dec(&mut s, self.minor as u64);
        s
    }
}

/// Decoding what was encoded gives the revision back, and leaves what followed.
pub proof fn lemma_revision_round_trip(r: CipRevision, rest: Seq<u8>)
    ensures
        decode_revision(encode_revision(r) + rest) == Some((r, rest)),
{
    assert((encode_revision(r) + rest).skip(2) =~= rest);
}

} // verus!
