//! The open connections of the IO thread, at most one per device and T->O
//! connection ID, and the decisions the thread makes about them: which to
//! close for silence, which are due to send, where received data belongs,
//! and how long it may sleep.

use vstd::prelude::*;

use super::connection::{
    is_next_slot, o2t_payload, parse_input, sat_add, ConnectionKey, InputData, IoConnection, IoConnectionView,
};
use crate::eip::{connected_packet_bytes, ConnectedPacket, SocketAddress};

verus! {

/// The key of a connection: the device it is with and its T->O ID.
pub open spec fn conn_key(v: IoConnectionView) -> ConnectionKey {
    ConnectionKey { peer_ip: v.cfg.peer_ip, t2o_id: v.cfg.t2o_id }
}

/// No two connections share a key.
pub open spec fn unique_keys(s: Seq<IoConnectionView>) -> bool {
    forall|i: int, j: int| 0 <= i < j < s.len() ==> conn_key(#[trigger] s[i]) != conn_key(#[trigger] s[j])
}

/// A connection has the key `k`.
pub open spec fn has_key(s: Seq<IoConnectionView>, k: ConnectionKey) -> bool {
    exists|i: int| 0 <= i < s.len() && conn_key(#[trigger] s[i]) == k
}

/// When a connection next needs attention: the earlier of its next send and
/// its timeout.
pub open spec fn deadline_of(v: IoConnectionView) -> u64 {
    let t = sat_add(v.last_receive, v.cfg.timeout_ns);
    if v.next_send <= t {
        v.next_send
    } else {
        t
    }
}

/// The connection has heard nothing for its timeout.
pub open spec fn timed_out(v: IoConnectionView, now: u64) -> bool {
    now >= sat_add(v.last_receive, v.cfg.timeout_ns)
}

/// The keys of the connections of `s` that have timed out at `now`, in order.
pub open spec fn timed_out_keys(s: Seq<IoConnectionView>, now: u64) -> Seq<ConnectionKey>
    decreases s.len(),
{
    if s.len() == 0 {
        seq![]
    } else if timed_out(s.last(), now) {
        timed_out_keys(s.drop_last(), now).push(conn_key(s.last()))
    } else {
        timed_out_keys(s.drop_last(), now)
    }
}

/// The connection has not timed out at `now`, and its O->T packet is due.
pub open spec fn send_is_due(v: IoConnectionView, now: u64) -> bool {
    !timed_out(v, now) && now >= v.next_send
}

/// The keys of the connections of `s` whose O->T packet is due at `now`, in
/// order.
pub open spec fn due_keys(s: Seq<IoConnectionView>, now: u64) -> Seq<ConnectionKey>
    decreases s.len(),
{
    if s.len() == 0 {
        seq![]
    } else if send_is_due(s.last(), now) {
        due_keys(s.drop_last(), now).push(conn_key(s.last()))
    } else {
        due_keys(s.drop_last(), now)
    }
}

/// Data accepted at `now` keeps a connection open: it is not timed out at
/// `now`, and it times out exactly when its timeout has passed since `now`
/// with no further data (short of the end of the clock).
pub proof fn lemma_receive_restarts_timeout(v: IoConnectionView, now: u64, later: u64)
    requires
        v.cfg.timeout_ns > 0,
        now < u64::MAX,
    ensures
        !timed_out(IoConnectionView { last_receive: now, ..v }, now),
        timed_out(IoConnectionView { last_receive: now, ..v }, later) <==> later >= sat_add(now, v.cfg.timeout_ns),
{
}

/// The connection's send schedule can move past `now` without running past
/// the end of the clock.
pub open spec fn schedulable(v: IoConnectionView, now: u64) -> bool {
    v.next_send + v.cfg.o2t_api_ns <= u64::MAX && now + v.cfg.o2t_api_ns <= u64::MAX
}

/// The open connections.
#[derive(Debug)]
pub struct ConnectionTable {
    conns: Vec<IoConnection>,
}

impl View for ConnectionTable {
    type V = Seq<IoConnectionView>;

    closed spec fn view(&self) -> Seq<IoConnectionView> {
        self.conns@.map_values(|c: IoConnection| c@)
    }
}

impl ConnectionTable {
    /// The table is well formed: no two connections share a key.
    pub open spec fn wf(&self) -> bool {
        unique_keys(self@)
    }

    pub fn new() -> (r: Self)
        ensures
            r@.len() == 0,
            r.wf(),
    {
        let r = ConnectionTable { conns: Vec::new() };
        assert(r@ =~= Seq::<IoConnectionView>::empty());
        r
    }

    pub fn len(&self) -> (r: usize)
        ensures
            r == self@.len(),
    {
        self.conns.len()
    }

    /// The position of the connection with key `key`.
    pub fn find(&self, key: ConnectionKey) -> (r: Option<usize>)
        ensures
            match r {
                Some(i) => i < self@.len() && conn_key(self@[i as int]) == key,
                None => !has_key(self@, key),
            },
    {
        let mut i: usize = 0;
        while i < self.conns.len()
            invariant
                i <= self@.len(),
                self@.len() == self.conns@.len(),
                forall|j: int| 0 <= j < i ==> conn_key(#[trigger] self@[j]) != key,
            decreases self@.len() - i,
        {
            if self.conns[i].config().key() == key {
                assert(self@[i as int] == self.conns@[i as int]@);
                return Some(i);
            }
            assert(self@[i as int] == self.conns@[i as int]@);
            i = i + 1;
        }
        None
    }

    /// Adds a connection; false, leaving the table as it was, when one with
    /// the same key is open.
    pub fn add(&mut self, conn: IoConnection) -> (r: bool)
        requires
            old(self).wf(),
        ensures
            final(self).wf(),
            r == !has_key(old(self)@, conn_key(conn@)),
            r ==> final(self)@ == old(self)@.push(conn@),
            !r ==> final(self)@ == old(self)@,
    {
        let key = conn.config().key();
        match self.find(key) {
            Some(_) => false,
            None => {
                let ghost before = self@;
                self.conns.push(conn);
                assert(self@ =~= before.push(conn@));
                true
            },
        }
    }

    /// Removes the connection with key `key`.
    pub fn remove(&mut self, key: ConnectionKey) -> (r: Option<IoConnection>)
        requires
            old(self).wf(),
        ensures
            final(self).wf(),
            match r {
                None => !has_key(old(self)@, key) && final(self)@ == old(self)@,
                Some(c) => exists|i: int|
                    0 <= i < old(self)@.len() && #[trigger] old(self)@[i] == c@ && conn_key(c@) == key && final(self)@
                        == old(self)@.remove(i),
            },
    {
        match self.find(key) {
            None => None,
            Some(i) => {
                let ghost before = self@;
                let c = self.conns.remove(i);
                assert(self@ =~= before.remove(i as int));
                assert(before[i as int] == c@);
                Some(c)
            },
        }
    }

    /// Takes the connection at `i` out, leaving a table without it.
    fn take_at(&mut self, i: usize) -> (r: IoConnection)
        requires
            i < old(self)@.len(),
        ensures
            r@ == old(self)@[i as int],
            final(self)@ == old(self)@.remove(i as int),
    {
        let ghost before = self@;
        let c = self.conns.remove(i);
        assert(self@ =~= before.remove(i as int));
        c
    }

    /// Puts a connection back at `i`.
    fn put_at(&mut self, i: usize, c: IoConnection)
        requires
            i <= old(self)@.len(),
        ensures
            final(self)@ == old(self)@.insert(i as int, c@),
    {
        let ghost before = self@;
        self.conns.insert(i, c);
        assert(self@ =~= before.insert(i as int, c@));
    }

    /// Replaces the output data of the connection with key `key`; false when
    /// there is none.
    pub fn set_output(&mut self, key: ConnectionKey, data: Vec<u8>) -> (r: bool)
        requires
            old(self).wf(),
        ensures
            final(self).wf(),
            r == has_key(old(self)@, key),
            !r ==> final(self)@ == old(self)@,
            r ==> exists|i: int|
                0 <= i < old(self)@.len() && conn_key(#[trigger] old(self)@[i]) == key && final(self)@ == old(
                    self,
                )@.update(i, IoConnectionView { output: data@, ..old(self)@[i] }),
    {
        match self.find(key) {
            None => false,
            Some(i) => {
                let ghost before = self@;
                let mut c = self.take_at(i);
                c.set_output(data);
                self.put_at(i, c);
                assert(self@ =~= before.update(i as int, IoConnectionView { output: data@, ..before[i as int] }));
                true
            },
        }
    }

    /// Sets the run/idle bit of the connection with key `key`; false when
    /// there is none.
    pub fn set_run(&mut self, key: ConnectionKey, run: bool) -> (r: bool)
        requires
            old(self).wf(),
        ensures
            final(self).wf(),
            r == has_key(old(self)@, key),
            !r ==> final(self)@ == old(self)@,
            r ==> exists|i: int|
                0 <= i < old(self)@.len() && conn_key(#[trigger] old(self)@[i]) == key && final(self)@ == old(
                    self,
                )@.update(i, IoConnectionView { run, ..old(self)@[i] }),
    {
        match self.find(key) {
            None => false,
            Some(i) => {
                let ghost before = self@;
                let mut c = self.take_at(i);
                c.set_run(run);
                self.put_at(i, c);
                assert(self@ =~= before.update(i as int, IoConnectionView { run, ..before[i as int] }));
                true
            },
        }
    }

    /// The keys of the connections that have heard nothing for their
    /// timeout at `now`, in table order.
    pub fn timed_out(&self, now: u64) -> (r: Vec<ConnectionKey>)
        ensures
            r@ == timed_out_keys(self@, now),
            forall|k: ConnectionKey|
                r@.contains(k) <==> exists|i: int|
                    0 <= i < self@.len() && conn_key(#[trigger] self@[i]) == k && timed_out(self@[i], now),
    {
        let mut out: Vec<ConnectionKey> = Vec::new();
        let mut i: usize = 0;
        while i < self.conns.len()
            invariant
                i <= self@.len(),
                self@.len() == self.conns@.len(),
                forall|k: ConnectionKey|
                    out@.contains(k) <==> exists|j: int|
                        0 <= j < i && conn_key(#[trigger] self@[j]) == k && timed_out(self@[j], now),
                out@ == timed_out_keys(self@.take(i as int), now),
            decreases self@.len() - i,
        {
            assert(self@[i as int] == self.conns@[i as int]@);
            assert(self@.take(i + 1).drop_last() =~= self@.take(i as int));
            if self.conns[i].is_timed_out(now) {
                let ghost before = out@;
                let k = self.conns[i].config().key();
                out.push(k);
                assert(conn_key(self@[i as int]) == k && timed_out(self@[i as int], now));
                assert forall|k2: ConnectionKey|
                    out@.contains(k2) <==> exists|j: int|
                        0 <= j < i + 1 && conn_key(#[trigger] self@[j]) == k2 && timed_out(self@[j], now) by {
                    if out@.contains(k2) {
                        let m = choose|m: int| 0 <= m < out@.len() && out@[m] == k2;
                        if m < before.len() {
                            assert(before[m] == k2);
                            assert(before.contains(k2));
                        } else {
                            assert(k2 == k);
                        }
                    }
                    if exists|j: int| 0 <= j < i + 1 && conn_key(#[trigger] self@[j]) == k2 && timed_out(self@[j], now) {
                        let j = choose|j: int| 0 <= j < i + 1 && conn_key(#[trigger] self@[j]) == k2 && timed_out(self@[j], now);
                        if j < i {
                            assert(before.contains(k2));
                            let m = choose|m: int| 0 <= m < before.len() && before[m] == k2;
                            assert(out@[m] == k2);
                        } else {
                            assert(out@[before.len() as int] == k2);
                        }
                    }
                }
            } else {
                assert forall|k2: ConnectionKey|
                    out@.contains(k2) <==> exists|j: int|
                        0 <= j < i + 1 && conn_key(#[trigger] self@[j]) == k2 && timed_out(self@[j], now) by {
                    if exists|j: int| 0 <= j < i + 1 && conn_key(#[trigger] self@[j]) == k2 && timed_out(self@[j], now) {
                        let j = choose|j: int| 0 <= j < i + 1 && conn_key(#[trigger] self@[j]) == k2 && timed_out(self@[j], now);
                        assert(j != i);
                    }
                }
            }
            i = i + 1;
        }
        assert(self@.take(i as int) =~= self@);
        out
    }

    /// The keys of the connections, not timed out at `now`, whose O->T
    /// packet is due, in table order.
    pub fn send_due(&self, now: u64) -> (r: Vec<ConnectionKey>)
        ensures
            r@ == due_keys(self@, now),
            forall|k: ConnectionKey|
                r@.contains(k) <==> exists|i: int|
                    0 <= i < self@.len() && conn_key(#[trigger] self@[i]) == k && !timed_out(self@[i], now) && now
                        >= self@[i].next_send,
    {
        let mut out: Vec<ConnectionKey> = Vec::new();
        let mut i: usize = 0;
        while i < self.conns.len()
            invariant
                i <= self@.len(),
                self@.len() == self.conns@.len(),
                forall|k: ConnectionKey|
                    out@.contains(k) <==> exists|j: int|
                        0 <= j < i && conn_key(#[trigger] self@[j]) == k && !timed_out(self@[j], now) && now
                            >= self@[j].next_send,
                out@ == due_keys(self@.take(i as int), now),
            decreases self@.len() - i,
        {
            assert(self@[i as int] == self.conns@[i as int]@);
            assert(self@.take(i + 1).drop_last() =~= self@.take(i as int));
            if !self.conns[i].is_timed_out(now) && self.conns[i].is_send_due(now) {
                let ghost before = out@;
                let k = self.conns[i].config().key();
                out.push(k);
                assert(conn_key(self@[i as int]) == k && !timed_out(self@[i as int], now) && now >= self@[i as int].next_send);
                assert forall|k2: ConnectionKey|
                    out@.contains(k2) <==> exists|j: int|
                        0 <= j < i + 1 && conn_key(#[trigger] self@[j]) == k2 && !timed_out(self@[j], now) && now
                            >= self@[j].next_send by {
                    if out@.contains(k2) {
                        let m = choose|m: int| 0 <= m < out@.len() && out@[m] == k2;
                        if m < before.len() {
                            assert(before[m] == k2);
                            assert(before.contains(k2));
                        } else {
                            assert(k2 == k);
                        }
                    }
                    if exists|j: int|
                        0 <= j < i + 1 && conn_key(#[trigger] self@[j]) == k2 && !timed_out(self@[j], now) && now
                            >= self@[j].next_send {
                        let j = choose|j: int|
                            0 <= j < i + 1 && conn_key(#[trigger] self@[j]) == k2 && !timed_out(self@[j], now) && now
                                >= self@[j].next_send;
                        if j < i {
                            assert(before.contains(k2));
                            let m = choose|m: int| 0 <= m < before.len() && before[m] == k2;
                            assert(out@[m] == k2);
                        } else {
                            assert(out@[before.len() as int] == k2);
                        }
                    }
                }
            } else {
                assert forall|k2: ConnectionKey|
                    out@.contains(k2) <==> exists|j: int|
                        0 <= j < i + 1 && conn_key(#[trigger] self@[j]) == k2 && !timed_out(self@[j], now) && now
                            >= self@[j].next_send by {
                    if exists|j: int|
                        0 <= j < i + 1 && conn_key(#[trigger] self@[j]) == k2 && !timed_out(self@[j], now) && now
                            >= self@[j].next_send {
                        let j = choose|j: int|
                            0 <= j < i + 1 && conn_key(#[trigger] self@[j]) == k2 && !timed_out(self@[j], now) && now
                                >= self@[j].next_send;
                        assert(j != i);
                    }
                }
            }
            i = i + 1;
        }
        assert(self@.take(i as int) =~= self@);
        out
    }

    /// Takes out the output data of the connection with key `key`, for the
    /// send callback to change in place; put it back with `set_output`.
    pub fn take_output(&mut self, key: ConnectionKey) -> (r: Option<Vec<u8>>)
        requires
            old(self).wf(),
        ensures
            final(self).wf(),
            match r {
                None => !has_key(old(self)@, key) && final(self)@ == old(self)@,
                Some(d) => exists|i: int|
                    0 <= i < old(self)@.len() && conn_key(#[trigger] old(self)@[i]) == key && d@ == old(self)@[i].output
                        && final(self)@ == old(self)@.update(i, IoConnectionView { output: seq![], ..old(self)@[i] }),
            },
    {
        match self.find(key) {
            None => None,
            Some(i) => {
                let ghost before = self@;
                let mut c = self.take_at(i);
                let out = c.output_mut();
                let mut taken: Vec<u8> = Vec::new();
                std::mem::swap(out, &mut taken);
                self.put_at(i, c);
                assert(self@ =~= before.update(i as int, IoConnectionView { output: seq![], ..before[i as int] }));
                Some(taken)
            },
        }
    }

    /// Builds the next O->T packet of the connection with key `key` into
    /// `out` (see [`IoConnection::build_packet`]): whether it is to be sent,
    /// and where. `None` when there is no such connection, or its schedule
    /// would run past the end of the clock.
    pub fn build_packet(&mut self, key: ConnectionKey, now: u64, out: &mut Vec<u8>) -> (r: Option<(bool, SocketAddress)>)
        requires
            old(self).wf(),
        ensures
            final(self).wf(),
            r is None ==> final(self)@ == old(self)@ && final(out)@ == old(out)@,
            r is None <==> forall|i: int|
                0 <= i < old(self)@.len() && conn_key(#[trigger] old(self)@[i]) == key ==> !schedulable(old(self)@[i], now),
            r matches Some((sent, dest)) ==> exists|i: int|
                0 <= i < old(self)@.len() && conn_key(#[trigger] old(self)@[i]) == key && dest == old(self)@[i].cfg.destination
                    && final(self)@.len() == old(self)@.len() && ({
                    let c = old(self)@[i];
                    let n = final(self)@[i];
                    &&& final(self)@ == old(self)@.update(i, n)
                    &&& n.cfg == c.cfg && n.output == c.output && n.run == c.run && n.last_receive == c.last_receive
                    &&& c.cfg.o2t_api_ns > 0 ==> is_next_slot(c.next_send, c.cfg.o2t_api_ns, now, n.next_send)
                    &&& c.cfg.o2t_api_ns == 0 ==> n.next_send == c.next_send
                    &&& sent == !(c.cfg.o2t_fixed && c.output.len() != c.cfg.o2t_size)
                    &&& !sent ==> final(out)@ == old(out)@ && n.o2t_sequence_number == c.o2t_sequence_number
                        && n.sequence_count == c.sequence_count
                    &&& sent ==> n.o2t_sequence_number == c.o2t_sequence_number.wrapping_add(1) && n.sequence_count == (
                    if c.cfg.has_sequence_count {
                        c.sequence_count.wrapping_add(1)
                    } else {
                        c.sequence_count
                    }) && final(out)@ == connected_packet_bytes(
                        c.cfg.o2t_id,
                        n.o2t_sequence_number,
                        o2t_payload(c.cfg, n.sequence_count, c.run, c.output),
                    )
                }),
    {
        let i = match self.find(key) {
            None => return None,
            Some(i) => i,
        };
        assert(self@[i as int] == self.conns@[i as int]@);
        if !self.conns[i].can_schedule(now) {
            assert forall|j: int|
                0 <= j < self@.len() && conn_key(#[trigger] self@[j]) == key implies !schedulable(self@[j], now) by {
                if j != i {
                    assert(conn_key(self@[j]) != conn_key(self@[i as int]));
                }
            }
            return None;
        }
        assert(schedulable(self@[i as int], now));
        let ghost before = self@;
        let mut c = self.take_at(i);
        let sent = c.build_packet(now, out);
        let dest = c.config().destination;
        let ghost n = c@;
        self.put_at(i, c);
        assert(self@ =~= before.update(i as int, n));
        Some((sent, dest))
    }

    /// Hands T->O data from `peer_ip` to its connection (see
    /// [`IoConnection::on_receive`]); `None` for data of no open connection
    /// or that the connection refuses.
    pub fn receive<'a>(&mut self, peer_ip: u32, packet: &ConnectedPacket<'a>, now: u64) -> (r: Option<InputData<'a>>)
        requires
            old(self).wf(),
        ensures
            final(self).wf(),
            !has_key(old(self)@, ConnectionKey { peer_ip, t2o_id: packet.connection_id }) ==> r is None && final(self)@
                == old(self)@,
            has_key(old(self)@, ConnectionKey { peer_ip, t2o_id: packet.connection_id }) ==> exists|i: int|
                0 <= i < old(self)@.len() && conn_key(#[trigger] old(self)@[i]) == (ConnectionKey {
                    peer_ip,
                    t2o_id: packet.connection_id,
                }) && match parse_input(old(self)@[i].cfg, packet.data@) {
                    None => r is None && final(self)@ == old(self)@,
                    Some((count, header, data)) => r matches Some(input) && input.sequence_number
                        == packet.sequence_number && input.sequence_count == count && input.run_idle_header
                        == header && input.data@ == data && final(self)@ == old(self)@.update(
                        i,
                        IoConnectionView { last_receive: now, ..old(self)@[i] },
                    ),
                },
    {
        let key = ConnectionKey { peer_ip, t2o_id: packet.connection_id };
        let i = match self.find(key) {
            None => return None,
            Some(i) => i,
        };
        let ghost before = self@;
        let mut c = self.take_at(i);
        let r = c.on_receive(packet, now);
        let ghost n = c@;
        self.put_at(i, c);
        assert(self@ =~= before.update(i as int, n));
        proof {
            if parse_input(before[i as int].cfg, packet.data@) is None {
                assert(self@ =~= before);
            }
        }
        r
    }

    /// How long the thread may sleep: until the earliest deadline of any
    /// connection, and at most `idle_wait` after `now`.
    pub fn next_deadline(&self, now: u64, idle_wait: u64) -> (r: u64)
        ensures
            r <= sat_add(now, idle_wait),
            forall|i: int| 0 <= i < self@.len() ==> r <= deadline_of(#[trigger] self@[i]),
            r == sat_add(now, idle_wait) || exists|i: int| 0 <= i < self@.len() && r == deadline_of(#[trigger] self@[i]),
    {
        let mut best = now.saturating_add(idle_wait);
        let mut i: usize = 0;
        while i < self.conns.len()
            invariant
                i <= self@.len(),
                self@.len() == self.conns@.len(),
                best <= sat_add(now, idle_wait),
                forall|j: int| 0 <= j < i ==> best <= deadline_of(#[trigger] self@[j]),
                best == sat_add(now, idle_wait) || exists|j: int| 0 <= j < i && best == deadline_of(#[trigger] self@[j]),
            decreases self@.len() - i,
        {
            assert(self@[i as int] == self.conns@[i as int]@);
            let d = self.conns[i].next_deadline();
            if d < best {
                best = d;
            }
            i = i + 1;
        }
        best
    }
}

} // verus!
