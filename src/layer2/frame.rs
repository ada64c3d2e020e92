//! Runs of the reader over octet sequences, the wire form of a well-formed
//! telegram, and what the reader makes of it.
use vstd::prelude::*;

use super::address::{class_of, AddressClass};
use super::crc::{crc_over, crc_step, lemma_crc_over_concat, lemma_crc_over_cons};
use super::packet::PacketView;
use super::reader::{after_master_crc, after_slave_crc, step, ReaderView};
use super::{TelegramComponent, EBUS_ACKOK, EBUS_ESCAPE, EBUS_SYN, MAX_NN};

verus! {

/// The state after the reader in state `r` has received every octet of `s`.
pub open spec fn run(r: ReaderView, s: Seq<u8>) -> ReaderView
    decreases s.len(),
{
    if s.len() == 0 {
        r
    } else {
        run(step(r, s[0]), s.drop_first())
    }
}

/// Whether receiving `b` in state `r` brings the reader back to awaiting a
/// frame delimiter from some other component.
pub open spec fn returns_to_syn(r: ReaderView, b: u8) -> bool {
    r.waiting_for != TelegramComponent::SYN && step(r, b).waiting_for == TelegramComponent::SYN
}

/// How many times the reader returns to awaiting a frame delimiter while it
/// receives `s` from state `r`.
pub open spec fn syn_returns(r: ReaderView, s: Seq<u8>) -> nat
    decreases s.len(),
{
    if s.len() == 0 {
        0
    } else {
        (if returns_to_syn(r, s[0]) {
            1nat
        } else {
            0nat
        }) + syn_returns(step(r, s[0]), s.drop_first())
    }
}

proof fn lemma_run_cons(r: ReaderView, b: u8, s: Seq<u8>)
    ensures
        run(r, seq![b] + s) == run(step(r, b), s),
        syn_returns(r, seq![b] + s) == (if returns_to_syn(r, b) {
            1nat
        } else {
            0nat
        }) + syn_returns(step(r, b), s),
{
    assert((seq![b] + s).drop_first() =~= s);
}

/// Receiving `a` then `b` is receiving their concatenation.
pub proof fn lemma_run_concat(r: ReaderView, a: Seq<u8>, b: Seq<u8>)
    ensures
        run(r, a + b) == run(run(r, a), b),
        syn_returns(r, a + b) == syn_returns(r, a) + syn_returns(run(r, a), b),
    decreases a.len(),
{
    if a.len() == 0 {
        assert(a + b =~= b);
    } else {
        assert((a + b).drop_first() =~= a.drop_first() + b);
        lemma_run_concat(step(r, a[0]), a.drop_first(), b);
    }
}

/// Whatever octets it receives, a reader keeps its packet within bounds.
pub proof fn lemma_run_wf(r: ReaderView, s: Seq<u8>)
    requires
        r.wf(),
    ensures
        run(r, s).wf(),
    decreases s.len(),
{
    if s.len() > 0 {
        lemma_step_wf(r, s[0]);
        lemma_run_wf(step(r, s[0]), s.drop_first());
    }
}

/// One octet keeps a reader's packet within bounds.
pub proof fn lemma_step_wf(r: ReaderView, b: u8)
    requires
        r.wf(),
    ensures
        step(r, b).wf(),
{
}

/// A frame delimiter in the middle of a telegram aborts it: the reader then
/// expects the source address of a new telegram, and its packet is left as
/// it was.
pub proof fn lemma_unexpected_syn(r: ReaderView)
    requires
        r.waiting_for != TelegramComponent::SYN,
        r.waiting_for != TelegramComponent::Source,
    ensures
        step(r, EBUS_SYN).waiting_for == TelegramComponent::Source,
        step(r, EBUS_SYN).packet == r.packet,
{
}

/// The components that make up the payload and CRC of the master part.
pub open spec fn in_master_body(t: TelegramComponent) -> bool {
    ||| t == TelegramComponent::MasterPayload
    ||| t == TelegramComponent::MasterEscapedPayload
    ||| t == TelegramComponent::MasterCRC
    ||| t == TelegramComponent::MasterEscapedCRC
}

/// The components that make up the payload and CRC of the slave part.
pub open spec fn in_slave_body(t: TelegramComponent) -> bool {
    ||| t == TelegramComponent::SlavePayload
    ||| t == TelegramComponent::SlaveEscapedPayload
    ||| t == TelegramComponent::SlaveCRC
    ||| t == TelegramComponent::SlaveEscapedCRC
}

/// No stale octet survives into a new payload: whenever the reader enters
/// the payload and CRC part of either half from elsewhere, that half's
/// payload is empty.
pub proof fn lemma_payload_cleared_on_entry(r: ReaderView, b: u8)
    ensures
        !in_master_body(r.waiting_for) && in_master_body(step(r, b).waiting_for)
            ==> step(r, b).packet.master_payload.len() == 0,
        !in_slave_body(r.waiting_for) && in_slave_body(step(r, b).waiting_for)
            ==> step(r, b).packet.slave_payload.len() == 0,
{
}

/// The wire form of a payload or CRC octet: the two sentinels are sent as
/// an escape prefix followed by 0x00 (escape) or 0x01 (frame delimiter).
pub open spec fn escaped(b: u8) -> Seq<u8> {
    if b == EBUS_ESCAPE {
        seq![EBUS_ESCAPE, 0x00]
    } else if b == EBUS_SYN {
        seq![EBUS_ESCAPE, 0x01]
    } else {
        seq![b]
    }
}

/// The wire form of a payload.
pub open spec fn escape_all(s: Seq<u8>) -> Seq<u8>
    decreases s.len(),
{
    if s.len() == 0 {
        Seq::empty()
    } else {
        escaped(s[0]) + escape_all(s.drop_first())
    }
}

/// The state after the octets of `d` were received in the master payload.
pub open spec fn master_payload_done(r: ReaderView, d: Seq<u8>) -> ReaderView {
    ReaderView {
        waiting_for: TelegramComponent::MasterCRC,
        packet: PacketView {
            master_payload: r.packet.master_payload + d,
            computed_master_crc: crc_over(r.packet.computed_master_crc, escape_all(d)),
            ..r.packet
        },
    }
}

/// The state after the octets of `d` were received in the slave payload.
pub open spec fn slave_payload_done(r: ReaderView, d: Seq<u8>) -> ReaderView {
    ReaderView {
        waiting_for: TelegramComponent::SlaveCRC,
        packet: PacketView {
            slave_payload: r.packet.slave_payload + d,
            computed_slave_crc: crc_over(r.packet.computed_slave_crc, escape_all(d)),
            ..r.packet
        },
    }
}

proof fn lemma_escape_all_cons(d: Seq<u8>)
    requires
        d.len() > 0,
    ensures
        escape_all(d) == escaped(d[0]) + escape_all(d.drop_first()),
{
}

/// The continuation octet that follows the escape prefix in the wire form
/// of a sentinel.
pub open spec fn escape_code(x: u8) -> u8 {
    if x == EBUS_ESCAPE {
        0x00
    } else {
        0x01
    }
}

proof fn lemma_crc_of_escaped(c: u8, x: u8)
    ensures
        crc_over(c, escaped(x)) == (if x == EBUS_ESCAPE || x == EBUS_SYN {
            crc_step(crc_step(c, EBUS_ESCAPE), escape_code(x))
        } else {
            crc_step(c, x)
        }),
{
    if x == EBUS_ESCAPE || x == EBUS_SYN {
        let w = escape_code(x);
        let c1 = crc_step(c, EBUS_ESCAPE);
        assert(escaped(x).drop_first() =~= seq![w]);
        assert(seq![w].drop_first() =~= Seq::<u8>::empty());
        assert(crc_over(c, escaped(x)) == crc_over(c1, seq![w]));
        assert(crc_over(c1, seq![w]) == crc_over(crc_step(c1, w), Seq::<u8>::empty()));
    } else {
        assert(escaped(x).drop_first() =~= Seq::<u8>::empty());
        assert(crc_over(c, escaped(x)) == crc_over(crc_step(c, x), Seq::<u8>::empty()));
    }
}

/// Receiving the wire form of `x` runs through its octets one by one.
proof fn lemma_run_escaped(r: ReaderView, x: u8)
    ensures
        x == EBUS_ESCAPE || x == EBUS_SYN ==> run(r, escaped(x)) == step(
            step(r, EBUS_ESCAPE),
            escape_code(x),
        ) && syn_returns(r, escaped(x)) == (if returns_to_syn(r, EBUS_ESCAPE) {
            1nat
        } else {
            0nat
        }) + (if returns_to_syn(step(r, EBUS_ESCAPE), escape_code(x)) {
            1nat
        } else {
            0nat
        }),
        !(x == EBUS_ESCAPE || x == EBUS_SYN) ==> run(r, escaped(x)) == step(r, x) && syn_returns(
            r,
            escaped(x),
        ) == (if returns_to_syn(r, x) {
            1nat
        } else {
            0nat
        }),
{
    if x == EBUS_ESCAPE || x == EBUS_SYN {
        let w = escape_code(x);
        assert(escaped(x) == seq![EBUS_ESCAPE] + seq![w]);
        lemma_run_cons(r, EBUS_ESCAPE, seq![w]);
        assert(seq![w] == seq![w] + Seq::<u8>::empty());
        lemma_run_cons(step(r, EBUS_ESCAPE), w, Seq::empty());
    } else {
        assert(escaped(x) == seq![x] + Seq::<u8>::empty());
        lemma_run_cons(r, x, Seq::empty());
    }
}

proof fn lemma_master_payload(r: ReaderView, d: Seq<u8>)
    requires
        r.waiting_for == TelegramComponent::MasterPayload,
        d.len() > 0,
        r.packet.master_payload.len() + d.len() == r.packet.master_payload_length,
    ensures
        run(r, escape_all(d)) == master_payload_done(r, d),
        syn_returns(r, escape_all(d)) == 0,
    decreases d.len(),
{
    let x = d[0];
    let rest = d.drop_first();
    let p = r.packet;
    lemma_escape_all_cons(d);
    lemma_run_concat(r, escaped(x), escape_all(rest));
    lemma_crc_over_concat(p.computed_master_crc, escaped(x), escape_all(rest));
    lemma_crc_of_escaped(p.computed_master_crc, x);
    lemma_run_escaped(r, x);
    let r1 = run(r, escaped(x));
    assert(r1.packet.master_payload =~= p.master_payload.push(x));
    if rest.len() == 0 {
        assert(escape_all(rest) =~= Seq::<u8>::empty());
        assert(p.master_payload + d =~= p.master_payload.push(x));
        assert(r1 == master_payload_done(r, d));
    } else {
        lemma_master_payload(r1, rest);
        assert(r1.packet.master_payload + rest =~= p.master_payload + d);
    }
}

proof fn lemma_slave_payload(r: ReaderView, d: Seq<u8>)
    requires
        r.waiting_for == TelegramComponent::SlavePayload,
        d.len() > 0,
        r.packet.slave_payload.len() + d.len() == r.packet.slave_payload_length,
    ensures
        run(r, escape_all(d)) == slave_payload_done(r, d),
        syn_returns(r, escape_all(d)) == 0,
    decreases d.len(),
{
    let x = d[0];
    let rest = d.drop_first();
    let p = r.packet;
    lemma_escape_all_cons(d);
    lemma_run_concat(r, escaped(x), escape_all(rest));
    lemma_crc_over_concat(p.computed_slave_crc, escaped(x), escape_all(rest));
    lemma_crc_of_escaped(p.computed_slave_crc, x);
    lemma_run_escaped(r, x);
    let r1 = run(r, escaped(x));
    assert(r1.packet.slave_payload =~= p.slave_payload.push(x));
    if rest.len() == 0 {
        assert(escape_all(rest) =~= Seq::<u8>::empty());
        assert(p.slave_payload + d =~= p.slave_payload.push(x));
        assert(r1 == slave_payload_done(r, d));
    } else {
        lemma_slave_payload(r1, rest);
        assert(r1.packet.slave_payload + rest =~= p.slave_payload + d);
    }
}

/// A telegram as its sender means it, before it is put on the wire.
pub ghost struct Telegram {
    pub source: u8,
    pub destination: u8,
    pub primary: u8,
    pub secondary: u8,
    pub master_payload: Seq<u8>,
    pub slave_payload: Seq<u8>,
}

impl Telegram {
    /// A master sends it to a valid address, its service codes are no frame
    /// delimiter, and neither payload exceeds the cap.
    pub open spec fn valid(self) -> bool {
        &&& class_of(self.source) is Master
        &&& class_of(self.destination) != AddressClass::Invalid
        &&& self.primary != EBUS_SYN
        &&& self.secondary != EBUS_SYN
        &&& self.master_payload.len() <= MAX_NN
        &&& self.slave_payload.len() <= MAX_NN
    }

    /// The destination answers with a payload of its own.
    pub open spec fn has_slave_part(self) -> bool {
        class_of(self.destination) is Slave || class_of(self.destination) is MasterSlave
    }

    /// The octets of the master part that its CRC covers, as on the wire.
    pub open spec fn master_wire(self) -> Seq<u8> {
        seq![
            self.source,
            self.destination,
            self.primary,
            self.secondary,
            self.master_payload.len() as u8,
        ] + escape_all(self.master_payload)
    }

    /// The CRC of the master part.
    pub open spec fn master_crc(self) -> u8 {
        crc_over(0, self.master_wire())
    }

    /// The octets of the slave part that its CRC covers, as on the wire.
    pub open spec fn slave_wire(self) -> Seq<u8> {
        seq![self.slave_payload.len() as u8] + escape_all(self.slave_payload)
    }

    /// The CRC of the slave part.
    pub open spec fn slave_crc(self) -> u8 {
        crc_over(0, self.slave_wire())
    }

    /// From the frame delimiter to the master CRC.
    pub open spec fn master_part(self) -> Seq<u8> {
        seq![EBUS_SYN] + self.master_wire() + escaped(self.master_crc())
    }

    /// From the slave's acknowledgement to the master's.
    pub open spec fn slave_part(self) -> Seq<u8> {
        seq![EBUS_ACKOK] + self.slave_wire() + escaped(self.slave_crc()) + seq![EBUS_ACKOK]
    }

    /// The whole exchange as it appears on the bus, every acknowledgement
    /// positive.
    pub open spec fn wire(self) -> Seq<u8> {
        if class_of(self.destination) is Broadcast {
            self.master_part()
        } else if class_of(self.destination) is Master {
            self.master_part() + seq![EBUS_ACKOK]
        } else {
            self.master_part() + self.slave_part()
        }
    }
}

/// The state after the master part of `t` up to its CRC was received.
pub open spec fn master_read(r: ReaderView, t: Telegram) -> ReaderView {
    ReaderView {
        waiting_for: TelegramComponent::MasterCRC,
        packet: PacketView {
            source: t.source,
            destination: t.destination,
            primary: t.primary,
            secondary: t.secondary,
            master_payload_length: t.master_payload.len() as u8,
            master_payload: t.master_payload,
            computed_master_crc: t.master_crc(),
            ..r.packet
        },
    }
}

proof fn lemma_master_header(r: ReaderView, t: Telegram)
    requires
        t.valid(),
    ensures
        run(r, seq![EBUS_SYN] + t.master_wire()) == master_read(r, t),
        syn_returns(r, seq![EBUS_SYN] + t.master_wire()) == 0,
{
    let nn = t.master_payload.len() as u8;
    let d = t.master_payload;
    let tail = seq![t.source, t.destination, t.primary, t.secondary, nn];
    let h = seq![EBUS_SYN] + tail;
    assert(seq![EBUS_SYN] + t.master_wire() =~= h + escape_all(d));
    lemma_run_concat(r, h, escape_all(d));
    lemma_run_cons(r, EBUS_SYN, tail);
    let r1 = step(r, EBUS_SYN);
    assert(tail =~= seq![t.source] + seq![t.destination, t.primary, t.secondary, nn]);
    lemma_run_cons(r1, t.source, seq![t.destination, t.primary, t.secondary, nn]);
    let r2 = step(r1, t.source);
    assert(seq![t.destination, t.primary, t.secondary, nn] =~= seq![t.destination] + seq![
        t.primary,
        t.secondary,
        nn,
    ]);
    lemma_run_cons(r2, t.destination, seq![t.primary, t.secondary, nn]);
    let r3 = step(r2, t.destination);
    assert(seq![t.primary, t.secondary, nn] =~= seq![t.primary] + seq![t.secondary, nn]);
    lemma_run_cons(r3, t.primary, seq![t.secondary, nn]);
    let r4 = step(r3, t.primary);
    assert(seq![t.secondary, nn] =~= seq![t.secondary] + seq![nn]);
    lemma_run_cons(r4, t.secondary, seq![nn]);
    let r5 = step(r4, t.secondary);
    assert(seq![nn] =~= seq![nn] + Seq::<u8>::empty());
    lemma_run_cons(r5, nn, Seq::empty());
    let r6 = step(r5, nn);
    // the CRC of the header, one octet at a time
    let c1 = crc_step(0, t.source);
    let c2 = crc_step(c1, t.destination);
    let c3 = crc_step(c2, t.primary);
    let c4 = crc_step(c3, t.secondary);
    let c5 = crc_step(c4, nn);
    lemma_crc_over_concat(0, tail, escape_all(d));
    lemma_crc_over_cons(0, t.source, seq![t.destination, t.primary, t.secondary, nn]);
    lemma_crc_over_cons(c1, t.destination, seq![t.primary, t.secondary, nn]);
    lemma_crc_over_cons(c2, t.primary, seq![t.secondary, nn]);
    lemma_crc_over_cons(c3, t.secondary, seq![nn]);
    lemma_crc_over_cons(c4, nn, Seq::empty());
    assert(crc_over(0, tail) == c5);
    assert(t.master_wire() == tail + escape_all(d));
    assert(t.master_crc() == crc_over(c5, escape_all(d)));
    assert(r6.packet.computed_master_crc == c5);
    assert(r6.packet.master_payload =~= Seq::<u8>::empty());
    if d.len() == 0 {
        assert(escape_all(d) =~= Seq::<u8>::empty());
        assert(r6.packet.master_payload =~= d);
        assert(run(r6, escape_all(d)) == r6);
        assert(r6 == master_read(r, t));
    } else {
        lemma_master_payload(r6, d);
        assert(r6.packet.master_payload + d =~= d);
    }
}

/// From the CRC component, the wire form of `crc` is taken as that CRC.
proof fn lemma_master_crc_field(m: ReaderView, crc: u8)
    requires
        m.waiting_for == TelegramComponent::MasterCRC,
        class_of(m.packet.destination) != AddressClass::Invalid,
    ensures
        run(m, escaped(crc)) == after_master_crc(m, crc),
        syn_returns(m, escaped(crc)) == (if class_of(m.packet.destination) is Broadcast {
            1nat
        } else {
            0nat
        }),
{
    lemma_run_escaped(m, crc);
}

proof fn lemma_slave_crc_field(m: ReaderView, crc: u8)
    requires
        m.waiting_for == TelegramComponent::SlaveCRC,
    ensures
        run(m, escaped(crc)) == after_slave_crc(m, crc),
        syn_returns(m, escaped(crc)) == 0,
{
    lemma_run_escaped(m, crc);
}

proof fn lemma_master_part(r: ReaderView, t: Telegram)
    requires
        t.valid(),
    ensures
        run(r, t.master_part()) == after_master_crc(master_read(r, t), t.master_crc()),
        syn_returns(r, t.master_part()) == (if class_of(t.destination) is Broadcast {
            1nat
        } else {
            0nat
        }),
{
    lemma_master_header(r, t);
    lemma_run_concat(r, seq![EBUS_SYN] + t.master_wire(), escaped(t.master_crc()));
    lemma_master_crc_field(master_read(r, t), t.master_crc());
}

/// The state after the slave part of `t` up to its CRC was received.
pub open spec fn slave_read(a: ReaderView, t: Telegram) -> ReaderView {
    ReaderView {
        waiting_for: TelegramComponent::SlaveCRC,
        packet: PacketView {
            slave_payload_length: t.slave_payload.len() as u8,
            slave_payload: t.slave_payload,
            computed_slave_crc: t.slave_crc(),
            ..a.packet
        },
    }
}

proof fn lemma_slave_part(a: ReaderView, t: Telegram)
    requires
        a.waiting_for == TelegramComponent::SlaveACK,
        a.packet.destination == t.destination,
        t.valid(),
        t.has_slave_part(),
    ensures
        run(a, t.slave_part()) == after_slave_crc(slave_read(a, t), t.slave_crc()).expecting(
            TelegramComponent::SYN,
        ),
        syn_returns(a, t.slave_part()) == 1,
{
    let nn = t.slave_payload.len() as u8;
    let d = t.slave_payload;
    let ack = seq![EBUS_ACKOK];
    let body = seq![nn] + escape_all(d);
    assert(t.slave_part() =~= ack + (body + (escaped(t.slave_crc()) + ack)));
    lemma_run_concat(a, ack, body + (escaped(t.slave_crc()) + ack));
    assert(ack =~= ack + Seq::<u8>::empty());
    lemma_run_cons(a, EBUS_ACKOK, Seq::empty());
    let a1 = step(a, EBUS_ACKOK);
    assert(a1.waiting_for == TelegramComponent::SlavePayloadLength);
    lemma_run_concat(a1, body, escaped(t.slave_crc()) + ack);
    lemma_run_cons(a1, nn, escape_all(d));
    let a2 = step(a1, nn);
    lemma_crc_over_cons(0, nn, escape_all(d));
    assert(a2.packet.computed_slave_crc == crc_step(0, nn));
    assert(a2.packet.slave_payload =~= Seq::<u8>::empty());
    if d.len() == 0 {
        assert(escape_all(d) =~= Seq::<u8>::empty());
        assert(a2.packet.slave_payload =~= d);
        assert(run(a2, escape_all(d)) == a2);
        assert(a2 == slave_read(a, t));
    } else {
        lemma_slave_payload(a2, d);
        assert(a2.packet.slave_payload + d =~= d);
    }
    let sr = slave_read(a, t);
    assert(run(a1, body) == sr);
    lemma_run_concat(sr, escaped(t.slave_crc()), ack);
    lemma_slave_crc_field(sr, t.slave_crc());
    let a3 = after_slave_crc(sr, t.slave_crc());
    lemma_run_cons(a3, EBUS_ACKOK, Seq::empty());
}

/// Whatever state it is in, a reader that receives a well-formed telegram
/// returns to awaiting a frame delimiter exactly once, at its last octet,
/// and its packet then holds the telegram's fields and both CRCs.
pub proof fn lemma_read_telegram(r: ReaderView, t: Telegram)
    requires
        t.valid(),
    ensures
        run(r, t.wire()).waiting_for == TelegramComponent::SYN,
        syn_returns(r, t.wire()) == 1,
        run(r, t.wire()).packet.source == t.source,
        run(r, t.wire()).packet.destination == t.destination,
        run(r, t.wire()).packet.primary == t.primary,
        run(r, t.wire()).packet.secondary == t.secondary,
        run(r, t.wire()).packet.master_payload_length == t.master_payload.len(),
        run(r, t.wire()).packet.master_payload == t.master_payload,
        run(r, t.wire()).packet.computed_master_crc == t.master_crc(),
        run(r, t.wire()).packet.master_crc == t.master_crc(),
        t.has_slave_part() ==> run(r, t.wire()).packet.slave_payload_length
            == t.slave_payload.len(),
        t.has_slave_part() ==> run(r, t.wire()).packet.slave_payload == t.slave_payload,
        t.has_slave_part() ==> run(r, t.wire()).packet.computed_slave_crc == t.slave_crc(),
        t.has_slave_part() ==> run(r, t.wire()).packet.slave_crc == t.slave_crc(),
{
    lemma_master_part(r, t);
    let a = after_master_crc(master_read(r, t), t.master_crc());
    if class_of(t.destination) is Broadcast {
    } else if class_of(t.destination) is Master {
        lemma_run_concat(r, t.master_part(), seq![EBUS_ACKOK]);
        assert(seq![EBUS_ACKOK] =~= seq![EBUS_ACKOK] + Seq::<u8>::empty());
        lemma_run_cons(a, EBUS_ACKOK, Seq::empty());
    } else {
        lemma_run_concat(r, t.master_part(), t.slave_part());
        lemma_slave_part(a, t);
    }
}

/// For every well-formed telegram, the CRC that the reader computes over
/// each part equals the CRC that it received for that part.
pub proof fn lemma_crc_round_trip(r: ReaderView, t: Telegram)
    requires
        t.valid(),
    ensures
        run(r, t.wire()).packet.computed_master_crc == run(r, t.wire()).packet.master_crc,
        t.has_slave_part() ==> run(r, t.wire()).packet.computed_slave_crc == run(
            r,
            t.wire(),
        ).packet.slave_crc,
{
    lemma_read_telegram(r, t);
}

/// Whatever state it is in, a reader that receives two well-formed
/// telegrams one after the other returns to awaiting a frame delimiter
/// exactly twice, and ends awaiting one.
pub proof fn lemma_two_telegrams(r: ReaderView, t1: Telegram, t2: Telegram)
    requires
        t1.valid(),
        t2.valid(),
    ensures
        syn_returns(r, t1.wire() + t2.wire()) == 2,
        run(r, t1.wire() + t2.wire()).waiting_for == TelegramComponent::SYN,
{
    lemma_run_concat(r, t1.wire(), t2.wire());
    lemma_read_telegram(r, t1);
    lemma_read_telegram(run(r, t1.wire()), t2);
}

} // verus!
