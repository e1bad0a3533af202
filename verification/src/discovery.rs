//! Replies to ListIdentity: the devices that answered and their identities.

use vstd::prelude::*;

use crate::eip::{
    decode_packet, decode_sockaddr, decode_sockaddr_spec, CommonPacket, CommonPacketItemId, ItemView, SocketAddress,
    HEADER_SIZE,
};
use crate::error::{Error, Fault, Result};
use crate::objects::{identity_ok, IdentityObject};
use crate::wire::{try_get_u16_le, try_skip};

verus! {

/// A device that answered ListIdentity.
#[derive(Debug, Clone, PartialEq, Eq)]
pub struct IdentityItem {
    pub identity: IdentityObject,
    /// The device's encapsulation (TCP) address, as it reports it.
    pub socket_address: SocketAddress,
}

/// The data of the ListIdentity items among `items`, in order.
pub open spec fn identity_item_data(items: Seq<ItemView>) -> Seq<Seq<u8>>
    decreases items.len(),
{
    if items.len() == 0 {
        seq![]
    } else if items.last().0.0 == CommonPacketItemId::LIST_IDENTITY {
        identity_item_data(items.drop_last()).push(items.last().1)
    } else {
        identity_item_data(items.drop_last())
    }
}

/// An identity item decodes when it holds the protocol version, the socket
/// address, and the identity attributes.
pub open spec fn identity_item_ok(d: Seq<u8>) -> bool {
    d.len() >= 18 && identity_ok(d.skip(18))
}

impl IdentityItem {
    /// The item decoded from the ListIdentity item data `d`: the socket
    /// address after the protocol version, then the identity as instance 1.
    pub open spec fn decoded_from(self, d: Seq<u8>) -> bool {
        &&& self.socket_address == decode_sockaddr_spec(d.skip(2))
        &&& self.identity.decoded_from(1, d.skip(18))
    }

    /// Decodes the data of one ListIdentity item.
    pub fn decode(data: &[u8]) -> (r: Result<Self>)
        ensures
            r is Ok <==> identity_item_ok(data@),
            r matches Ok(item) ==> item.decoded_from(data@),
            r matches Err(e) ==> e is Truncated,
    {
        let mut buf = data;
        match try_get_u16_le(&mut buf) {
            Ok(_) => {},
            Err(e) => return Err(e),
        }
        let socket_address = match decode_sockaddr(&mut buf) {
            Ok(a) => a,
            Err(e) => return Err(e),
        };
        assert(buf@ =~= data@.skip(18));
        let identity = match IdentityObject::decode_from(1, &mut buf) {
            Ok(i) => i,
            Err(e) => return Err(e),
        };
        Ok(IdentityItem { identity, socket_address })
    }
}

/// All identity items of `items` decode.
pub open spec fn all_identity_items_ok(items: Seq<ItemView>) -> bool {
    forall|i: int| 0 <= i < identity_item_data(items).len() ==> identity_item_ok(#[trigger] identity_item_data(items)[i])
}

/// Parses a ListIdentity reply: encapsulation header, then one identity item
/// per ListIdentity CPF item; other items are skipped.
pub fn parse_list_identity_response(data: &[u8]) -> (r: Result<Vec<IdentityItem>>)
    ensures
        data@.len() < 24 ==> (r matches Err(e) && e is Truncated),
        data@.len() >= 24 ==> match decode_packet(data@.skip(24)) {
            Err(f) => r matches Err(e) && e.is_fault(f),
            Ok(items) => {
                &&& r is Ok <==> all_identity_items_ok(items)
                &&& r matches Err(e) ==> e is Truncated
                &&& r matches Ok(v) ==> v@.len() == identity_item_data(items).len() && forall|i: int|
                    0 <= i < v@.len() ==> #[trigger] v@[i].decoded_from(identity_item_data(items)[i])
            },
        },
{
    let mut buf = data;
    match try_skip(&mut buf, HEADER_SIZE) {
        Ok(()) => {},
        Err(e) => return Err(e),
    }
    let packet = match CommonPacket::decode(buf) {
        Ok(p) => p,
        Err(e) => return Err(e),
    };
    let ghost items = packet@;
    let mut found: Vec<IdentityItem> = Vec::new();
    let mut i: usize = 0;
    while i < packet.items.len()
        invariant
            i <= packet.items@.len(),
            items == packet@,
            data@.len() >= 24,
            decode_packet(data@.skip(24)) == Ok::<Seq<ItemView>, Fault>(items),
            items.len() == packet.items@.len(),
            found@.len() == identity_item_data(items.take(i as int)).len(),
            forall|j: int| 0 <= j < found@.len() ==> #[trigger] found@[j].decoded_from(identity_item_data(items.take(i as int))[j]),
            forall|j: int| 0 <= j < found@.len() ==> identity_item_ok(#[trigger] identity_item_data(items.take(i as int))[j]),
        decreases packet.items@.len() - i,
    {
        let ghost prefix = items.take(i as int);
        assert(items.take(i + 1).drop_last() =~= prefix);
        assert(items.take(i + 1).last() == items[i as int]);
        assert(items[i as int] == packet.items@[i as int]@);
        if packet.items[i].type_id.0 == CommonPacketItemId::LIST_IDENTITY {
            let item = match IdentityItem::decode(packet.items[i].data.as_slice()) {
                Ok(item) => item,
                Err(e) => {
                    proof {
                        lemma_identity_item_data_prefix(items, i as int + 1);
                        assert(identity_item_data(items.take(i + 1)) == identity_item_data(prefix).push(items[i as int].1));
                        assert(identity_item_data(items.take(i + 1))[found@.len() as int] == items[i as int].1);
                        assert(!identity_item_ok(identity_item_data(items)[found@.len() as int]));
                        assert(!all_identity_items_ok(items));
                    }
                    return Err(e);
                },
            };
            found.push(item);
        }
        i = i + 1;
    }
    assert(items.take(i as int) =~= items);
    proof {
        assert forall|j: int| 0 <= j < identity_item_data(items).len() implies identity_item_ok(
            #[trigger] identity_item_data(items)[j],
        ) by {
            assert(identity_item_ok(identity_item_data(items.take(i as int))[j]));
        }
    }
    Ok(found)
}

/// The identity items of a prefix of the items are a prefix of all of them.
proof fn lemma_identity_item_data_prefix(items: Seq<ItemView>, n: int)
    requires
        0 <= n <= items.len(),
    ensures
        identity_item_data(items.take(n)).len() <= identity_item_data(items).len(),
        forall|j: int| 0 <= j < identity_item_data(items.take(n)).len() ==> identity_item_data(items.take(n))[j]
            == #[trigger] identity_item_data(items)[j],
    decreases items.len(),
{
    if n == items.len() {
        assert(items.take(n) =~= items);
    } else {
        lemma_identity_item_data_prefix(items.drop_last(), n);
        assert(items.drop_last().take(n) =~= items.take(n));
    }
}


/// A network interface as the operating system lists it: its flags, and the
/// broadcast address it has when that is an IPv4 address.
#[derive(Debug, Clone, Copy, PartialEq, Eq)]
pub struct InterfaceAddress {
    pub up: bool,
    pub broadcast: bool,
    pub loopback: bool,
    /// The IPv4 broadcast address, most significant octet first.
    pub broadcast_address: Option<u32>,
}

/// The interface is up, can broadcast, is not loopback, and has an IPv4
/// broadcast address.
pub open spec fn broadcasts(i: InterfaceAddress) -> bool {
    i.up && i.broadcast && !i.loopback && i.broadcast_address is Some
}

/// Every element is smaller than the one after it.
pub open spec fn strictly_ascending(s: Seq<u32>) -> bool {
    forall|i: int, j: int| 0 <= i < j < s.len() ==> s[i] < s[j]
}

/// Inserts `a` in its place in a strictly ascending list, unless it is
/// already there.
fn insert_ascending(v: &mut Vec<u32>, a: u32)
    requires
        strictly_ascending(old(v)@),
    ensures
        strictly_ascending(final(v)@),
        forall|x: u32| final(v)@.contains(x) <==> (old(v)@.contains(x) || x == a),
{
    let mut i: usize = 0;
    while i < v.len() && v[i] < a
        invariant
            i <= v@.len(),
            v@ == old(v)@,
            strictly_ascending(v@),
            forall|k: int| 0 <= k < i ==> v@[k] < a,
        decreases v@.len() - i,
    {
        i = i + 1;
    }
    if i < v.len() && v[i] == a {
        assert(v@.contains(a));
        return;
    }
    let ghost before = v@;
    assert(before == old(v)@);
    v.insert(i, a);
    assert(v@ == before.insert(i as int, a));
    assert forall|x: u32| v@.contains(x) <==> (before.contains(x) || x == a) by {
        if v@.contains(x) {
            let k = choose|k: int| 0 <= k < v@.len() && v@[k] == x;
            if k < i {
                assert(before[k] == x);
            } else if k > i {
                assert(before[k - 1] == x);
            }
        }
        if before.contains(x) {
            let k = choose|k: int| 0 <= k < before.len() && before[k] == x;
            if k < i {
                assert(v@[k] == x);
            } else {
                assert(v@[k + 1] == x);
            }
        }
        if x == a {
            assert(v@[i as int] == a);
        }
    }
    assert forall|p: int, q: int| 0 <= p < q < v@.len() implies v@[p] < v@[q] by {
        if q < i {
            assert(before[p] < before[q]);
        } else if q == i {
        } else if p < i {
            assert(before[p] < a);
        } else if p == i {
            assert(a < before[q - 1] || a == before[q - 1]);
        } else {
            assert(before[p - 1] < before[q - 1]);
        }
    }
    assert(forall|x: u32| v@.contains(x) <==> (old(v)@.contains(x) || x == a));
}

/// The broadcast addresses to send ListIdentity to: those of the interfaces
/// that are up, can broadcast and are not loopback, each once, in ascending
/// order.
pub fn broadcast_addresses(interfaces: &[InterfaceAddress]) -> (r: Vec<u32>)
    ensures
        strictly_ascending(r@),
        forall|a: u32|
            r@.contains(a) <==> exists|k: int|
                0 <= k < interfaces@.len() && #[trigger] broadcasts(interfaces@[k])
                    && interfaces@[k].broadcast_address == Some(a),
{
    let mut out: Vec<u32> = Vec::new();
    let mut k: usize = 0;
    while k < interfaces.len()
        invariant
            k <= interfaces@.len(),
            strictly_ascending(out@),
            forall|a: u32|
                out@.contains(a) <==> exists|j: int|
                    0 <= j < k && #[trigger] broadcasts(interfaces@[j])
                        && interfaces@[j].broadcast_address == Some(a),
        decreases interfaces@.len() - k,
    {
        let i = interfaces[k];
        let ghost before = out@;
        if i.up && i.broadcast && !i.loopback {
            if let Some(a) = i.broadcast_address {
                insert_ascending(&mut out, a);
            }
        }
        assert forall|a: u32|
            out@.contains(a) <==> exists|j: int|
                0 <= j < k + 1 && #[trigger] broadcasts(interfaces@[j])
                    && interfaces@[j].broadcast_address == Some(a) by {
            if out@.contains(a) && !before.contains(a) {
                assert(broadcasts(interfaces@[k as int]));
            }
            if exists|j: int|
                0 <= j < k + 1 && #[trigger] broadcasts(interfaces@[j])
                    && interfaces@[j].broadcast_address == Some(a) {
                let j = choose|j: int|
                    0 <= j < k + 1 && #[trigger] broadcasts(interfaces@[j])
                        && interfaces@[j].broadcast_address == Some(a);
                if j < k {
                    assert(before.contains(a));
                }
            }
        }
        k = k + 1;
    }
    out
}

} // verus!
