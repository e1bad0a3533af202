//! The implicit messaging state of one connection: the O->T send schedule,
//! sequence numbers, and the T->O timeout. Performs no I/O; times are
//! nanoseconds on a monotonic clock chosen by the caller.

use vstd::prelude::*;
use vstd::arithmetic::div_mod::{lemma_fundamental_div_mod, lemma_mod_bound};

use crate::eip::{connected_packet_bytes, encode_connected_packet, concat_parts, part_views, ConnectedPacket, SocketAddress};
use crate::wire::{from_le16, from_le32, le16, le32, put_slice, put_u16_le, put_u32_le, try_get_u16_le, try_get_u32_le};

verus! {

/// Data received on a T->O connection.
#[derive(Debug, Clone, Copy, PartialEq, Eq)]
pub struct InputData<'a> {
    /// CPF sequenced address item sequence number.
    pub sequence_number: u32,
    /// CIP sequence count; 0 for class 0 connections.
    pub sequence_count: u16,
    /// 32-bit run/idle header; 0 unless the connection uses the real-time format.
    pub run_idle_header: u32,
    pub data: &'a [u8],
}

/// Identifies a connection: T->O connection IDs are only unique per device,
/// so the device address is part of the key.
#[derive(Debug, Clone, Copy, PartialEq, Eq, Structural, Hash)]
pub struct ConnectionKey {
    pub peer_ip: u32,
    pub t2o_id: u32,
}

/// Settings of an opened connection, from the Forward Open request and reply.
#[derive(Debug, Clone, Copy, PartialEq, Eq, Structural)]
pub struct IoConnectionConfig {
    pub o2t_id: u32,
    pub t2o_id: u32,
    pub serial_number: u16,
    /// Actual O->T packet interval, nanoseconds.
    pub o2t_api_ns: u64,
    /// Time without T->O data after which the connection is closed, nanoseconds.
    pub timeout_ns: u64,
    pub o2t_size: usize,
    pub t2o_size: usize,
    pub o2t_fixed: bool,
    pub t2o_fixed: bool,
    pub has_sequence_count: bool,
    pub o2t_real_time_format: bool,
    pub t2o_real_time_format: bool,
    /// Where O->T packets are sent.
    pub destination: SocketAddress,
    /// T->O packets from any other address are dropped.
    pub peer_ip: u32,
}

impl IoConnectionConfig {
    pub fn key(&self) -> (r: ConnectionKey)
        ensures
            r == (ConnectionKey { peer_ip: self.peer_ip, t2o_id: self.t2o_id }),
    {
        ConnectionKey { peer_ip: self.peer_ip, t2o_id: self.t2o_id }
    }
}

/// The state of a connection.
pub ghost struct IoConnectionView {
    pub cfg: IoConnectionConfig,
    pub output: Seq<u8>,
    pub run: bool,
    pub o2t_sequence_number: u32,
    pub sequence_count: u16,
    /// When the next O->T packet is due.
    pub next_send: u64,
    /// When T->O data last arrived (or the connection was opened).
    pub last_receive: u64,
}

/// Implicit messaging state of one connection.
#[derive(Debug)]
pub struct IoConnection {
    cfg: IoConnectionConfig,
    output: Vec<u8>,
    run: bool,
    o2t_sequence_number: u32,
    sequence_count: u16,
    next_send: u64,
    last_receive: u64,
    payload: Vec<u8>,
}

impl View for IoConnection {
    type V = IoConnectionView;

    closed spec fn view(&self) -> IoConnectionView {
        IoConnectionView {
            cfg: self.cfg,
            output: self.output@,
            run: self.run,
            o2t_sequence_number: self.o2t_sequence_number,
            sequence_count: self.sequence_count,
            next_send: self.next_send,
            last_receive: self.last_receive,
        }
    }
}

/// `a + b`, or `u64::MAX` where that overflows.
pub open spec fn sat_add(a: u64, b: u64) -> u64 {
    if a + b > u64::MAX { u64::MAX } else { (a + b) as u64 }
}

/// The O->T payload: the sequence count (when the connection has one), the
/// run/idle header (real-time format: 1 for run, 0 for idle), the output.
pub open spec fn o2t_payload(cfg: IoConnectionConfig, count: u16, run: bool, output: Seq<u8>) -> Seq<u8> {
    (if cfg.has_sequence_count { le16(count) } else { seq![] }) + (if cfg.o2t_real_time_format {
        le32(if run { 1u32 } else { 0u32 })
    } else {
        seq![]
    }) + output
}

/// The next O->T slot after a send due at `next`: the first point of the grid
/// `next + k * api` (`k >= 1`) that lies after `now`. Slots missed entirely
/// are skipped rather than sent in a burst; the phase of the grid is kept.
pub open spec fn is_next_slot(next: u64, api: u64, now: u64, slot: u64) -> bool {
    exists|k: nat|
        #![trigger k * api]
        k >= 1 && slot == next + k * api && slot > now && (k == 1 || slot - api <= now)
}

/// The fields of a T->O payload: the sequence count (when the connection has
/// one, else 0), the run/idle header (real-time format, else 0), and the
/// data. `None` when the payload is too short for them, or when a fixed-size
/// connection's data has the wrong size.
pub open spec fn parse_input(cfg: IoConnectionConfig, d: Seq<u8>) -> Option<(u16, u32, Seq<u8>)> {
    let c: int = if cfg.has_sequence_count { 2 } else { 0 };
    let h: int = if cfg.t2o_real_time_format { 4 } else { 0 };
    if d.len() < c + h {
        None
    } else if cfg.t2o_fixed && d.len() - c - h != cfg.t2o_size {
        None
    } else {
        Some((
            if cfg.has_sequence_count { from_le16(d) } else { 0u16 },
            if cfg.t2o_real_time_format { from_le32(d.skip(c)) } else { 0u32 },
            d.skip(c + h),
        ))
    }
}

impl IoConnection {
    /// A connection opened at `now`: output of `o2t_size` zero bytes, run,
    /// counters at 0, first send due at once.
    pub fn new(cfg: IoConnectionConfig, now: u64) -> (r: Self)
        ensures
            r@ == (IoConnectionView {
                cfg,
                output: Seq::new(cfg.o2t_size as nat, |_i: int| 0u8),
                run: true,
                o2t_sequence_number: 0,
                sequence_count: 0,
                next_send: now,
                last_receive: now,
            }),
    {
        let mut output: Vec<u8> = Vec::new();
        let mut i: usize = 0;
        while i < cfg.o2t_size
            invariant
                i <= cfg.o2t_size,
                output@ == Seq::new(i as nat, |_i: int| 0u8),
            decreases cfg.o2t_size - i,
        {
            output.push(0);
            i = i + 1;
            assert(output@ =~= Seq::new(i as nat, |_i: int| 0u8));
        }
        Self {
            cfg,
            output,
            run: true,
            o2t_sequence_number: 0,
            sequence_count: 0,
            next_send: now,
            last_receive: now,
            payload: Vec::new(),
        }
    }

    pub fn config(&self) -> (r: &IoConnectionConfig)
        ensures
            *r == self@.cfg,
    {
        &self.cfg
    }

    /// Replaces the output data. Applied at the next O->T send.
    pub fn set_output(&mut self, data: Vec<u8>)
        ensures
            final(self)@ == (IoConnectionView { output: data@, ..old(self)@ }),
    {
        self.output = data;
    }

    /// The output data, to change in place before a send.
    pub fn output_mut(&mut self) -> (r: &mut Vec<u8>)
        ensures
            r@ == old(self)@.output,
            final(self)@ == (IoConnectionView { output: final(r)@, ..old(self)@ }),
    {
        &mut self.output
    }

    /// Sets the run/idle bit sent with O->T data (real-time format only).
    pub fn set_run(&mut self, run: bool)
        ensures
            final(self)@ == (IoConnectionView { run, ..old(self)@ }),
    {
        self.run = run;
    }

    /// When the connection times out unless T->O data arrives first.
    pub fn timeout_at(&self) -> (r: u64)
        ensures
            r == sat_add(self@.last_receive, self@.cfg.timeout_ns),
    {
        self.last_receive.saturating_add(self.cfg.timeout_ns)
    }

    pub fn is_timed_out(&self, now: u64) -> (r: bool)
        ensures
            r == (now >= sat_add(self@.last_receive, self@.cfg.timeout_ns)),
    {
        now >= self.timeout_at()
    }

    /// When the next O->T packet is due.
    pub fn next_send(&self) -> (r: u64)
        ensures
            r == self@.next_send,
    {
        self.next_send
    }

    pub fn is_send_due(&self, now: u64) -> (r: bool)
        ensures
            r == (now >= self@.next_send),
    {
        now >= self.next_send
    }

    /// The next time this connection needs attention: the earlier of the next
    /// send and the timeout.
    pub fn next_deadline(&self) -> (r: u64)
        ensures
            r == if self@.next_send <= sat_add(self@.last_receive, self@.cfg.timeout_ns) {
                self@.next_send
            } else {
                sat_add(self@.last_receive, self@.cfg.timeout_ns)
            },
    {
        let t = self.timeout_at();
        if self.next_send <= t {
            self.next_send
        } else {
            t
        }
    }

    /// The send schedule can move past `now` without running past the end
    /// of the clock.
    pub fn can_schedule(&self, now: u64) -> (r: bool)
        ensures
            r == (self@.next_send + self@.cfg.o2t_api_ns <= u64::MAX && now + self@.cfg.o2t_api_ns <= u64::MAX),
    {
        self.next_send <= u64::MAX - self.cfg.o2t_api_ns && now <= u64::MAX - self.cfg.o2t_api_ns
    }

    /// Moves the send schedule to the slot after `now`.
    fn advance_schedule(&mut self, now: u64)
        requires
            old(self).next_send + old(self).cfg.o2t_api_ns <= u64::MAX,
            now + old(self).cfg.o2t_api_ns <= u64::MAX,
        ensures
            final(self).cfg.o2t_api_ns > 0 ==> is_next_slot(old(self).next_send, old(self).cfg.o2t_api_ns, now, final(self).next_send),
            final(self).cfg.o2t_api_ns == 0 ==> final(self).next_send == old(self).next_send,
            final(self).next_send <= if old(self).next_send + old(self).cfg.o2t_api_ns > now {
                old(self).next_send + old(self).cfg.o2t_api_ns
            } else {
                now + old(self).cfg.o2t_api_ns
            },
            *final(self) == (IoConnection { next_send: final(self).next_send, ..*old(self) }),
    {
        let api = self.cfg.o2t_api_ns;
        let first = self.next_send + api;
        if first > now || api == 0 {
            self.next_send = first;
            proof {
                if api > 0 {
                    assert(1 * api == api) by (nonlinear_arith);
                    assert(is_next_slot(old(self).next_send, api, now, first));
                }
            }
            return;
        }
        let missed = (now - first) / api + 1;
        proof {
            let x = (now - first) as int;
            let q = x / api as int;
            lemma_fundamental_div_mod(x, api as int);
            lemma_mod_bound(x, api as int);
            assert(api * missed == api * q + api) by (nonlinear_arith)
                requires missed == q + 1;
            assert(api * missed <= now - first + api);
        }
        let step = api * missed;
        self.next_send = first + step;
        proof {
            let k: nat = (missed + 1) as nat;
            assert(k * api == api + api * missed) by (nonlinear_arith)
                requires k == missed + 1;
            assert(is_next_slot(old(self).next_send, api, now, self.next_send));
        }
    }

    /// Builds the next O->T packet into `out` and advances the schedule to the
    /// slot after `now`. Returns false, leaving `out` and the counters as they
    /// were, when the output size does not match a fixed-size connection.
    pub fn build_packet(&mut self, now: u64, out: &mut Vec<u8>) -> (sent: bool)
        requires
            old(self)@.next_send + old(self)@.cfg.o2t_api_ns <= u64::MAX,
            now + old(self)@.cfg.o2t_api_ns <= u64::MAX,
        ensures
            final(self)@.cfg.o2t_api_ns > 0 ==> is_next_slot(
                old(self)@.next_send,
                old(self)@.cfg.o2t_api_ns,
                now,
                final(self)@.next_send,
            ),
            final(self)@.cfg.o2t_api_ns == 0 ==> final(self)@.next_send == old(self)@.next_send,
            sent == !(old(self)@.cfg.o2t_fixed && old(self)@.output.len() != old(self)@.cfg.o2t_size),
            !sent ==> final(self)@ == (IoConnectionView { next_send: final(self)@.next_send, ..old(self)@ })
                && final(out)@ == old(out)@,
            sent ==> {
                let seq = old(self)@.o2t_sequence_number.wrapping_add(1);
                let count = if old(self)@.cfg.has_sequence_count {
                    old(self)@.sequence_count.wrapping_add(1)
                } else {
                    old(self)@.sequence_count
                };
                &&& final(self)@ == (IoConnectionView {
                    next_send: final(self)@.next_send,
                    o2t_sequence_number: seq,
                    sequence_count: count,
                    ..old(self)@
                })
                &&& final(out)@ == connected_packet_bytes(
                    old(self)@.cfg.o2t_id,
                    seq,
                    o2t_payload(old(self)@.cfg, count, old(self)@.run, old(self)@.output),
                )
            },
    {
        self.advance_schedule(now);
        if self.cfg.o2t_fixed && self.output.len() != self.cfg.o2t_size {
            return false;
        }
        self.o2t_sequence_number = self.o2t_sequence_number.wrapping_add(1);
        self.payload.clear();
        if self.cfg.has_sequence_count {
            self.sequence_count = self.sequence_count.wrapping_add(1);
            put_u16_le(&mut self.payload, self.sequence_count);
        }
        if self.cfg.o2t_real_time_format {
            let header: u32 = if self.run { 1 } else { 0 };
            put_u32_le(&mut self.payload, header);
        }
        put_slice(&mut self.payload, self.output.as_slice());
        let ghost payload = self.payload@;
        let payload_len = self.payload.len();
        assert(payload =~= o2t_payload(self.cfg, self.sequence_count, self.run, self.output@));
        let parts: [&[u8]; 1] = [self.payload.as_slice()];
        let ps = parts.as_slice();
        proof {
            assert(ps@.len() == 1 && ps@[0]@ == payload && payload.len() == payload_len);
            assert(part_views(ps@) =~= seq![payload]);
            assert(seq![payload].drop_last() =~= Seq::<Seq<u8>>::empty());
            assert(concat_parts(Seq::<Seq<u8>>::empty()) =~= Seq::<u8>::empty());
            assert(concat_parts(seq![payload]) =~= payload);
        }
        encode_connected_packet(out, self.cfg.o2t_id, self.o2t_sequence_number, ps);
        true
    }

    /// Parses T->O data received at `now`. `None` for a payload that is too
    /// short or has the wrong size; those leave the connection as it was, so
    /// they don't reset the timeout. Otherwise the timeout restarts at `now`.
    pub fn on_receive<'a>(&mut self, packet: &ConnectedPacket<'a>, now: u64) -> (r: Option<InputData<'a>>)
        ensures
            match parse_input(old(self)@.cfg, packet.data@) {
                None => r is None && final(self)@ == old(self)@,
                Some((count, header, data)) => r matches Some(input) && input.sequence_number
                    == packet.sequence_number && input.sequence_count == count && input.run_idle_header == header
                    && input.data@ == data && final(self)@ == (IoConnectionView { last_receive: now, ..old(self)@ }),
            },
    {
        let ghost d = packet.data@;
        let mut buf = packet.data;
        let sequence_count = if self.cfg.has_sequence_count {
            match try_get_u16_le(&mut buf) {
                Ok(v) => v,
                Err(_) => return None,
            }
        } else {
            0
        };
        let ghost c: int = if self.cfg.has_sequence_count { 2 } else { 0 };
        assert(buf@ =~= d.skip(c));
        let run_idle_header = if self.cfg.t2o_real_time_format {
            match try_get_u32_le(&mut buf) {
                Ok(v) => v,
                Err(_) => return None,
            }
        } else {
            0
        };
        let ghost h: int = if self.cfg.t2o_real_time_format { 4 } else { 0 };
        assert(buf@ =~= d.skip(c + h));
        if self.cfg.t2o_fixed && buf.len() != self.cfg.t2o_size {
            return None;
        }
        self.last_receive = now;
        Some(InputData { sequence_number: packet.sequence_number, sequence_count, run_idle_header, data: buf })
    }
}

} // verus!
