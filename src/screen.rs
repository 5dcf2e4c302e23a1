//! The display controller: two bus units and what each call asks of them.
//! A call returns the transactions to perform, in order; the hardware layer
//! plays them on the lines and stops at the first failure.
use vstd::prelude::*;
use crate::glyph::{encode, render_buffer, GlyphTable};
use crate::protocol::{
    power_command, power_command_spec, transaction, transaction_spec, Edge, Line,
    ADDRESS_COMMAND, DATA_MODE_COMMAND, DISPLAY_MODE_COMMAND,
};
use crate::render::{frames, frames_of, split_frame, FRAME_PAUSE_MS, FRAME_WIDTH};

verus! {

/// The hardware lines of one display unit, by line number.
#[derive(Clone, Copy, Debug, PartialEq, Eq, Structural)]
pub struct LedScreenUnit {
    pub stb: u64,
    pub clk: u64,
    pub dio: u64,
}

impl LedScreenUnit {
    /// A unit on the given strobe, clock and data lines.
    pub fn new(stb: u64, clk: u64, dio: u64) -> (r: LedScreenUnit)
        ensures
            r == (LedScreenUnit { stb, clk, dio }),
    {
        LedScreenUnit { stb, clk, dio }
    }

    /// The line number that carries `line` for this unit.
    pub fn line_id(&self, line: Line) -> (r: u64)
        ensures
            r == match line {
                Line::Strobe => self.stb,
                Line::Clock => self.clk,
                Line::Data => self.dio,
            },
    {
        match line {
            Line::Strobe => self.stb,
            Line::Clock => self.clk,
            Line::Data => self.dio,
        }
    }

    /// The line levels of one transaction with `command` and `values`.
    pub fn do_write_data(&self, command: u8, values: &[u8]) -> (r: Vec<Edge>)
        ensures
            r@ == transaction_spec(command, values@),
    {
        transaction(command, values)
    }

    /// The line levels that select the display mode.
    pub fn set_show_model(&self) -> (r: Vec<Edge>)
        ensures
            r@ == transaction_spec(DISPLAY_MODE_COMMAND, Seq::empty()),
    {
        let none: Vec<u8> = Vec::new();
        self.do_write_data(DISPLAY_MODE_COMMAND, none.as_slice())
    }

    /// The line levels that select auto-increment data mode.
    pub fn set_data_model(&self) -> (r: Vec<Edge>)
        ensures
            r@ == transaction_spec(DATA_MODE_COMMAND, Seq::empty()),
    {
        let none: Vec<u8> = Vec::new();
        self.do_write_data(DATA_MODE_COMMAND, none.as_slice())
    }

    /// The line levels that switch the unit on at `light_level`, or off.
    pub fn power(&self, run: bool, light_level: u8) -> (r: Vec<Edge>)
        ensures
            r@ == transaction_spec(power_command_spec(run, light_level), Seq::empty()),
    {
        let none: Vec<u8> = Vec::new();
        self.do_write_data(power_command(run, light_level), none.as_slice())
    }

    /// The line levels that write `values` as columns from the first address.
    pub fn printf(&self, values: &[u8]) -> (r: Vec<Edge>)
        ensures
            r@ == transaction_spec(ADDRESS_COMMAND, values@),
    {
        self.do_write_data(ADDRESS_COMMAND, values)
    }
}

/// The unit that a transaction addresses.
#[derive(Clone, Copy, Debug, PartialEq, Eq, Structural)]
pub enum Side {
    Left,
    Right,
}

/// One transaction for one unit: a command byte and its payload bytes.
#[derive(Debug)]
pub struct Transfer {
    pub side: Side,
    pub command: u8,
    pub payload: Vec<u8>,
}

/// `t` addresses `side` with `command` and `payload`.
pub open spec fn is_transfer(t: Transfer, side: Side, command: u8, payload: Seq<u8>) -> bool {
    t.side == side && t.command == command && t.payload@ == payload
}

/// The two transactions that carry `frame`: its columns `[0, 14)` to the
/// left unit, its columns `[14, 27)` and `status` to the right unit.
pub open spec fn frame_transfers(ts: Seq<Transfer>, k: int, frame: Seq<u8>, status: u8) -> bool {
    is_transfer(ts[2 * k], Side::Left, ADDRESS_COMMAND, frame.subrange(0, 14)) && is_transfer(
        ts[2 * k + 1],
        Side::Right,
        ADDRESS_COMMAND,
        frame.subrange(14, 27).push(status),
    )
}

/// `ts` sends `command`, without payload, to the left unit and then the right one.
pub open spec fn both_units(ts: Seq<Transfer>, command: u8) -> bool {
    ts.len() == 2 && is_transfer(ts[0], Side::Left, command, Seq::empty()) && is_transfer(
        ts[1],
        Side::Right,
        command,
        Seq::empty(),
    )
}

/// What one render call asks of the bus: the transactions in order, two per
/// frame (left, then right), and a pause of `pause_ms` after each frame.
#[derive(Debug)]
pub struct Render {
    pub transfers: Vec<Transfer>,
    pub pause_ms: u64,
}

/// A display of two units that share their clock and data lines and have a
/// strobe line each, with the glyphs it renders text in.
pub struct LedScreen {
    pub left_screen: LedScreenUnit,
    pub right_screen: LedScreenUnit,
    pub glyphs: GlyphTable,
}

fn both(command: u8) -> (r: Vec<Transfer>)
    ensures
        both_units(r@, command),
{
    let mut r: Vec<Transfer> = Vec::new();
    r.push(Transfer { side: Side::Left, command, payload: Vec::new() });
    r.push(Transfer { side: Side::Right, command, payload: Vec::new() });
    r
}

fn push_unique(v: &mut Vec<u64>, x: u64)
    requires
        old(v)@.no_duplicates(),
    ensures
        final(v)@.no_duplicates(),
        forall|y: u64| final(v)@.contains(y) <==> (old(v)@.contains(y) || y == x),
{
    let mut i: usize = 0;
    while i < v.len()
        invariant
            i <= v@.len(),
            v@ == old(v)@,
            v@.no_duplicates(),
            forall|k: int| 0 <= k < i ==> v@[k] != x,
        decreases v@.len() - i,
    {
        if v[i] == x {
            return;
        }
        i = i + 1;
    }
    v.push(x);
    assert forall|y: u64| final(v)@.contains(y) <==> (old(v)@.contains(y) || y == x) by {
        if old(v)@.contains(y) {
            let k = choose|k: int| 0 <= k < old(v)@.len() && old(v)@[k] == y;
            assert(final(v)@[k] == y);
        }
        if y == x {
            assert(final(v)@[old(v)@.len() as int] == y);
        }
    }
}

impl LedScreen {
    /// A display with the left unit on `stb_left`, the right unit on
    /// `stb_right`, both on the clock line `clk` and the data line `dio`.
    pub fn new(stb_left: u64, stb_right: u64, clk: u64, dio: u64, glyphs: GlyphTable) -> (r:
        LedScreen)
        ensures
            r.left_screen == (LedScreenUnit { stb: stb_left, clk, dio }),
            r.right_screen == (LedScreenUnit { stb: stb_right, clk, dio }),
            r.glyphs@ == glyphs@,
    {
        LedScreen {
            left_screen: LedScreenUnit::new(stb_left, clk, dio),
            right_screen: LedScreenUnit::new(stb_right, clk, dio),
            glyphs,
        }
    }

    /// The unit on `side`.
    pub fn unit(&self, side: Side) -> (r: LedScreenUnit)
        ensures
            r == match side {
                Side::Left => self.left_screen,
                Side::Right => self.right_screen,
            },
    {
        match side {
            Side::Left => self.left_screen,
            Side::Right => self.right_screen,
        }
    }

    /// Every line that the display holds, each once: the lines to acquire at
    /// start and to release at the end, whatever happened in between.
    pub fn lines(&self) -> (r: Vec<u64>)
        ensures
            r@.no_duplicates(),
            forall|x: u64|
                r@.contains(x) <==> (x == self.left_screen.stb || x == self.left_screen.clk || x
                    == self.left_screen.dio || x == self.right_screen.stb || x
                    == self.right_screen.clk || x == self.right_screen.dio),
    {
        let mut r: Vec<u64> = Vec::new();
        push_unique(&mut r, self.left_screen.stb);
        push_unique(&mut r, self.left_screen.clk);
        push_unique(&mut r, self.left_screen.dio);
        push_unique(&mut r, self.right_screen.stb);
        push_unique(&mut r, self.right_screen.clk);
        push_unique(&mut r, self.right_screen.dio);
        r
    }

    /// The transactions that select the display mode on both units.
    pub fn set_show_model(&self) -> (r: Vec<Transfer>)
        ensures
            both_units(r@, DISPLAY_MODE_COMMAND),
    {
        both(DISPLAY_MODE_COMMAND)
    }

    /// The transactions that select auto-increment data mode on both units.
    pub fn set_data_model(&self) -> (r: Vec<Transfer>)
        ensures
            both_units(r@, DATA_MODE_COMMAND),
    {
        both(DATA_MODE_COMMAND)
    }

    /// The transactions that a new display is sent once: display mode to
    /// the left unit and then the right one, then data mode to both in the
    /// same order.
    pub fn start_up(&self) -> (r: Vec<Transfer>)
        ensures
            r@.len() == 4,
            is_transfer(r@[0], Side::Left, DISPLAY_MODE_COMMAND, Seq::empty()),
            is_transfer(r@[1], Side::Right, DISPLAY_MODE_COMMAND, Seq::empty()),
            is_transfer(r@[2], Side::Left, DATA_MODE_COMMAND, Seq::empty()),
            is_transfer(r@[3], Side::Right, DATA_MODE_COMMAND, Seq::empty()),
    {
        let mut r = self.set_show_model();
        let data = self.set_data_model();
        let ghost shown = r@;
        let ghost second = data@;
        let mut data = data;
        r.append(&mut data);
        assert(r@ =~= shown + second);
        r
    }

    /// The transactions that switch both units on at `light_level`, or off.
    pub fn power(&self, run: bool, light_level: u8) -> (r: Vec<Transfer>)
        ensures
            both_units(r@, power_command_spec(run, light_level)),
    {
        both(power_command(run, light_level))
    }

    /// The transactions that show `text` with the icon bits `status`: the
    /// frames of its render buffer, each as a left and a right transaction,
    /// with a pause of 128 ms after each frame when the buffer is animated
    /// (wider than 27 columns) and none when it is static.
    pub fn write_data(&self, text: &[u8], status: u8) -> (r: Render)
        ensures
            ({
                let fs = frames_of(render_buffer(self.glyphs@, text@));
                &&& r.transfers@.len() == 2 * fs.len()
                &&& forall|k: int|
                    0 <= k < fs.len() ==> #[trigger] frame_transfers(
                        r.transfers@,
                        k,
                        fs[k],
                        status,
                    )
                &&& r.pause_ms == if render_buffer(self.glyphs@, text@).len() > 27 {
                    FRAME_PAUSE_MS
                } else {
                    0
                }
            }),
    {
        let data = encode(&self.glyphs, text);
        let fs = frames(data.as_slice());
        let ghost spec_fs = frames_of(data@);
        let mut transfers: Vec<Transfer> = Vec::new();
        let mut k: usize = 0;
        while k < fs.len()
            invariant
                k <= fs@.len(),
                fs@.len() == spec_fs.len(),
                forall|j: int| 0 <= j < fs@.len() ==> (#[trigger] fs@[j])@ == spec_fs[j],
                forall|j: int| 0 <= j < spec_fs.len() ==> (#[trigger] spec_fs[j]).len() == 27,
                transfers@.len() == 2 * k,
                forall|j: int|
                    0 <= j < k ==> #[trigger] frame_transfers(transfers@, j, spec_fs[j], status),
            decreases fs@.len() - k,
        {
            let (left, right) = split_frame(fs[k].as_slice(), status);
            let ghost before = transfers@;
            transfers.push(Transfer { side: Side::Left, command: ADDRESS_COMMAND, payload: left });
            transfers.push(
                Transfer { side: Side::Right, command: ADDRESS_COMMAND, payload: right },
            );
            assert forall|j: int| 0 <= j < k + 1 implies #[trigger] frame_transfers(
                transfers@,
                j,
                spec_fs[j],
                status,
            ) by {
                if j < k {
                    assert(frame_transfers(before, j, spec_fs[j], status));
                    assert(transfers@[2 * j] == before[2 * j]);
                    assert(transfers@[2 * j + 1] == before[2 * j + 1]);
                }
            }
            k = k + 1;
        }
        let pause_ms: u64 = if data.len() > FRAME_WIDTH {
            FRAME_PAUSE_MS
        } else {
            0
        };
        Render { transfers, pause_ms }
    }
}

} // verus!
