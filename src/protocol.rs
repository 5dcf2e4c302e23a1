//! The bus protocol of one display unit: command bytes, payload bytes, and the
//! sequence of line levels that carries them.
use vstd::prelude::*;

verus! {

/// Command that selects the display mode; sent once at start-up.
pub const DISPLAY_MODE_COMMAND: u8 = 0b0000_0011;

/// Command that selects auto-increment data mode; sent once at start-up.
pub const DATA_MODE_COMMAND: u8 = 0b0100_0000;

/// Command that writes a column payload from the first address; sent on every frame.
pub const ADDRESS_COMMAND: u8 = 0b1100_0000;

/// The power command that turns a unit off.
pub const POWER_OFF_COMMAND: u8 = 0x80;

/// The power command: off is `0x80`, on is `0x88` with the brightness in the
/// low three bits (higher brightness bits are dropped).
pub open spec fn power_command_spec(run: bool, light_level: u8) -> u8 {
    if run {
        0x88u8 | (light_level & 7u8)
    } else {
        POWER_OFF_COMMAND
    }
}

/// The power command byte for a unit.
pub fn power_command(run: bool, light_level: u8) -> (r: u8)
    ensures
        r == power_command_spec(run, light_level),
{
    if run {
        let r: u8 = ((light_level << 5u8) >> 5u8 | 0b1111_1000u8) & 0b1000_1111u8;
        assert(((light_level << 5u8) >> 5u8 | 0b1111_1000u8) & 0b1000_1111u8 == 0x88u8 | (
        light_level & 7u8)) by (bit_vector);
        r
    } else {
        POWER_OFF_COMMAND
    }
}

/// One of the three lines of a bus unit.
#[derive(Clone, Copy, Debug, PartialEq, Eq, Structural)]
pub enum Line {
    Strobe,
    Clock,
    Data,
}

/// Driving one line to a level: `high` is level 1, otherwise level 0.
#[derive(Clone, Copy, Debug, PartialEq, Eq, Structural)]
pub struct Edge {
    pub line: Line,
    pub high: bool,
}

/// Bit `i` of `v`, counting from the least significant bit.
pub open spec fn bit_at(v: u8, i: u8) -> bool {
    (v >> i) & 1u8 == 1u8
}

/// The `n` lowest bits of `v`, least significant first.
pub open spec fn low_bits(v: u8, n: nat) -> Seq<bool> {
    Seq::new(n, |i: int| bit_at(v, i as u8))
}

/// The bits of a command byte on the wire: all eight, least significant first.
pub open spec fn command_bits(v: u8) -> Seq<bool> {
    low_bits(v, 8)
}

/// The bits of one payload byte on the wire: its five low bits, least
/// significant first, then six zero bits when `fill` is set.
pub open spec fn data_byte_bits(v: u8, fill: bool) -> Seq<bool> {
    low_bits(v, 5) + if fill {
        Seq::new(6, |i: int| false)
    } else {
        Seq::empty()
    }
}

/// The bits of a payload on the wire: each byte by `data_byte_bits`, filled
/// at the odd positions.
pub open spec fn payload_bits(p: Seq<u8>) -> Seq<bool>
    decreases p.len(),
{
    if p.len() == 0 {
        Seq::empty()
    } else {
        payload_bits(p.drop_last()) + data_byte_bits(p.last(), (p.len() - 1) % 2 == 1)
    }
}

/// The edges that clock the bits `bs` out: for each bit, clock low, data to
/// the bit, clock high.
pub open spec fn clocked(bs: Seq<bool>) -> Seq<Edge> {
    Seq::new(
        3 * bs.len(),
        |k: int|
            if k % 3 == 0 {
                Edge { line: Line::Clock, high: false }
            } else if k % 3 == 1 {
                Edge { line: Line::Data, high: bs[k / 3] }
            } else {
                Edge { line: Line::Clock, high: true }
            },
    )
}

/// One transaction: strobe low, the command byte, the payload, strobe high.
pub open spec fn transaction_spec(command: u8, payload: Seq<u8>) -> Seq<Edge> {
    seq![Edge { line: Line::Strobe, high: false }] + clocked(
        command_bits(command) + payload_bits(payload),
    ) + seq![Edge { line: Line::Strobe, high: true }]
}

proof fn lemma_clocked_push(bs: Seq<bool>, b: bool)
    ensures
        clocked(bs.push(b)) == clocked(bs) + clocked(seq![b]),
{
    let l = clocked(bs.push(b));
    let r = clocked(bs) + clocked(seq![b]);
    assert(l.len() == r.len());
    assert forall|k: int| 0 <= k < l.len() implies l[k] == r[k] by {
        if k >= 3 * bs.len() {
            let j = k - 3 * bs.len();
            assert(k % 3 == j % 3);
            assert(k / 3 == bs.len() + j / 3);
        }
    }
    assert(l =~= r);
}

proof fn lemma_clocked_append(a: Seq<bool>, b: Seq<bool>)
    ensures
        clocked(a + b) == clocked(a) + clocked(b),
    decreases b.len(),
{
    if b.len() == 0 {
        assert(a + b =~= a);
        assert(clocked(b) =~= Seq::<Edge>::empty());
        assert(clocked(a) + clocked(b) =~= clocked(a));
    } else {
        let bl = b.drop_last();
        lemma_clocked_append(a, bl);
        assert(a + b =~= (a + bl).push(b.last()));
        assert(b =~= bl.push(b.last()));
        lemma_clocked_push(a + bl, b.last());
        lemma_clocked_push(bl, b.last());
    }
}

/// Clocks one bit out (clock low, data to the bit, clock high).
pub fn write_bit(edges: &mut Vec<Edge>, bit: bool)
    ensures
        final(edges)@ == old(edges)@ + clocked(seq![bit]),
{
    edges.push(Edge { line: Line::Clock, high: false });
    edges.push(Edge { line: Line::Data, high: bit });
    edges.push(Edge { line: Line::Clock, high: true });
    assert(final(edges)@ =~= old(edges)@ + clocked(seq![bit]));
}

/// Clocks the `n` lowest bits of `v` out, least significant first.
fn write_low_bits(edges: &mut Vec<Edge>, v: u8, n: u8)
    requires
        n <= 8,
    ensures
        final(edges)@ == old(edges)@ + clocked(low_bits(v, n as nat)),
{
    let mut i: u8 = 0;
    while i < n
        invariant
            i <= n <= 8,
            edges@ == old(edges)@ + clocked(low_bits(v, i as nat)),
        decreases n - i,
    {
        let bit = (v >> i) & 1u8 == 1u8;
        proof {
            lemma_clocked_push(low_bits(v, i as nat), bit);
            assert(low_bits(v, (i + 1) as nat) =~= low_bits(v, i as nat).push(bit));
        }
        write_bit(edges, bit);
        i = i + 1;
    }
}

/// Clocks a command byte out: all eight bits, least significant first.
pub fn write_command_byte(edges: &mut Vec<Edge>, value: u8)
    ensures
        final(edges)@ == old(edges)@ + clocked(command_bits(value)),
{
    write_low_bits(edges, value, 8);
}

/// Clocks a payload byte out: its five low bits, then six zero bits when
/// `fill_data` is set.
pub fn write_data_byte(edges: &mut Vec<Edge>, value: u8, fill_data: bool)
    ensures
        final(edges)@ == old(edges)@ + clocked(data_byte_bits(value, fill_data)),
{
    write_low_bits(edges, value, 5);
    if fill_data {
        let ghost before = edges@;
        let mut k: u8 = 0;
        while k < 6
            invariant
                k <= 6,
                edges@ == before + clocked(Seq::new(k as nat, |i: int| false)),
            decreases 6 - k,
        {
            proof {
                lemma_clocked_push(Seq::new(k as nat, |i: int| false), false);
                assert(Seq::new((k + 1) as nat, |i: int| false) =~= Seq::new(
                    k as nat,
                    |i: int| false,
                ).push(false));
            }
            write_bit(edges, false);
            k = k + 1;
        }
        proof {
            lemma_clocked_append(low_bits(value, 5), Seq::new(6, |i: int| false));
        }
    } else {
        assert(data_byte_bits(value, fill_data) =~= low_bits(value, 5));
    }
}

/// The line levels of one transaction: strobe low, the command byte, each
/// payload byte (filled at the odd positions), strobe high.
pub fn transaction(command: u8, values: &[u8]) -> (r: Vec<Edge>)
    ensures
        r@ == transaction_spec(command, values@),
{
    let mut edges: Vec<Edge> = Vec::new();
    edges.push(Edge { line: Line::Strobe, high: false });
    write_command_byte(&mut edges, command);
    let mut i: usize = 0;
    while i < values.len()
        invariant
            i <= values@.len(),
            edges@ == seq![Edge { line: Line::Strobe, high: false }] + clocked(
                command_bits(command) + payload_bits(values@.subrange(0, i as int)),
            ),
        decreases values@.len() - i,
    {
        let ghost pre = values@.subrange(0, i as int);
        let ghost bits = data_byte_bits(values@[i as int], i % 2 != 0);
        write_data_byte(&mut edges, values[i], i % 2 != 0);
        proof {
            let next = values@.subrange(0, i + 1);
            assert(next.drop_last() =~= pre);
            assert(payload_bits(next) == payload_bits(pre) + bits);
            lemma_clocked_append(command_bits(command) + payload_bits(pre), bits);
            assert(command_bits(command) + payload_bits(next) =~= command_bits(command)
                + payload_bits(pre) + bits);
        }
        i = i + 1;
    }
    assert(values@.subrange(0, values@.len() as int) =~= values@);
    edges.push(Edge { line: Line::Strobe, high: true });
    edges
}

/// What a device on the bus latches from `es`, given that the data line
/// stands at `level` before it (`None`: not yet driven): at each edge that
/// drives the clock high, the level of the data line at that moment.
pub open spec fn latched_from(es: Seq<Edge>, level: Option<bool>) -> Seq<Option<bool>>
    decreases es.len(),
{
    if es.len() == 0 {
        Seq::empty()
    } else {
        let e = es[0];
        let rest = es.subrange(1, es.len() as int);
        if e.line == Line::Data {
            latched_from(rest, Some(e.high))
        } else if e.line == Line::Clock && e.high {
            seq![level] + latched_from(rest, level)
        } else {
            latched_from(rest, level)
        }
    }
}

/// What a device latches from `es` when the data line was not driven before.
pub open spec fn latched(es: Seq<Edge>) -> Seq<Option<bool>> {
    latched_from(es, None)
}

/// Each bit as a driven data level.
pub open spec fn driven(bs: Seq<bool>) -> Seq<Option<bool>> {
    bs.map_values(|b: bool| Some(b))
}

proof fn lemma_latched_clocked(bs: Seq<bool>, tail: Seq<Edge>, level: Option<bool>)
    ensures
        latched_from(clocked(bs) + tail, level) == driven(bs) + latched_from(
            tail,
            if bs.len() == 0 {
                level
            } else {
                Some(bs.last())
            },
        ),
    decreases bs.len(),
{
    if bs.len() == 0 {
        assert(clocked(bs) + tail =~= tail);
        assert(driven(bs) + latched_from(tail, level) =~= latched_from(tail, level));
    } else {
        let b = bs[0];
        let rest = bs.drop_first();
        assert(bs =~= seq![b] + rest);
        lemma_clocked_append(seq![b], rest);
        let es = clocked(bs) + tail;
        let t1 = clocked(rest) + tail;
        assert(clocked(seq![b]) =~= seq![
            Edge { line: Line::Clock, high: false },
            Edge { line: Line::Data, high: b },
            Edge { line: Line::Clock, high: true },
        ]);
        assert(es.subrange(1, es.len() as int) =~= seq![
            Edge { line: Line::Data, high: b },
            Edge { line: Line::Clock, high: true },
        ] + t1);
        let e2 = seq![Edge { line: Line::Data, high: b }, Edge { line: Line::Clock, high: true }]
            + t1;
        assert(e2.subrange(1, e2.len() as int) =~= seq![Edge { line: Line::Clock, high: true }]
            + t1);
        let e3 = seq![Edge { line: Line::Clock, high: true }] + t1;
        assert(e3.subrange(1, e3.len() as int) =~= t1);
        lemma_latched_clocked(rest, tail, Some(b));
        if rest.len() > 0 {
            assert(rest.last() == bs.last());
        }
        assert(driven(bs) =~= seq![Some(b)] + driven(rest));
        assert(es[0] == Edge { line: Line::Clock, high: false });
        assert(latched_from(es, level) == latched_from(e2, level));
        assert(e2[0] == Edge { line: Line::Data, high: b });
        assert(latched_from(e2, level) == latched_from(e3, Some(b)));
        assert(e3[0] == Edge { line: Line::Clock, high: true });
        assert(latched_from(e3, Some(b)) == seq![Some(b)] + latched_from(t1, Some(b)));
    }
}

/// Bit order: what the device latches from a transaction is the command
/// byte's eight bits, least significant first, followed by the payload's
/// bits; in particular the first eight latched levels are the command's bits.
pub proof fn lemma_transaction_latches(command: u8, payload: Seq<u8>)
    ensures
        latched(transaction_spec(command, payload)) == driven(
            command_bits(command) + payload_bits(payload),
        ),
        latched(transaction_spec(command, payload)).subrange(0, 8) == driven(
            command_bits(command),
        ),
{
    let bs = command_bits(command) + payload_bits(payload);
    let strobe_low = Edge { line: Line::Strobe, high: false };
    let strobe_high = Edge { line: Line::Strobe, high: true };
    let es = transaction_spec(command, payload);
    let tail = seq![strobe_high];
    assert(es.subrange(1, es.len() as int) =~= clocked(bs) + tail);
    lemma_latched_clocked(bs, tail, None);
    let lvl = if bs.len() == 0 { None } else { Some(bs.last()) };
    assert(tail.subrange(1, 1) =~= Seq::<Edge>::empty());
    assert(latched_from(Seq::<Edge>::empty(), lvl) == Seq::<Option<bool>>::empty());
    assert(latched_from(tail, lvl) == Seq::<Option<bool>>::empty());
    assert(es[0] == strobe_low);
    assert(latched(es) =~= driven(bs));
    assert(driven(bs).subrange(0, 8) =~= driven(command_bits(command)));
}

} // verus!
