//! Frame layout: static centring of a short render buffer, the reveal-then-
//! slide animation of a long one, and the split of a frame over the two units.
use vstd::prelude::*;

verus! {

/// Columns in one frame over both units.
pub const FRAME_WIDTH: usize = 27;

/// Columns of a frame that go to the left unit; the rest go to the right one.
pub const LEFT_WIDTH: usize = 14;

/// Pause after each frame of an animation, in milliseconds.
pub const FRAME_PAUSE_MS: u64 = 128;

/// Where a render buffer of `len` columns starts in a static frame.
pub open spec fn center_offset(len: int) -> int {
    (27 - len) / 2
}

/// The static frame of a buffer of at most 27 columns: the buffer at
/// `center_offset`, every other column zero.
pub open spec fn centered_frame(d: Seq<u8>) -> Seq<u8> {
    Seq::new(
        27,
        |j: int|
            if center_offset(d.len() as int) <= j < center_offset(d.len() as int) + d.len() {
                d[j - center_offset(d.len() as int)]
            } else {
                0u8
            },
    )
}

/// First column of `d` shown in animation frame `i` (counted from 1).
pub open spec fn window_start(i: int) -> int {
    if i > 27 {
        i - 27
    } else {
        0
    }
}

/// Number of columns of `d` shown in animation frame `i`.
pub open spec fn window_len(i: int) -> int {
    if i > 27 {
        27
    } else {
        i
    }
}

/// Animation frame `i` of `d`: the window of `d` from `window_start(i)`,
/// `window_len(i)` columns wide, from the left edge, then zero columns.
pub open spec fn window_frame(d: Seq<u8>, i: int) -> Seq<u8> {
    Seq::new(27, |j: int| if j < window_len(i) { d[window_start(i) + j] } else { 0u8 })
}

/// The frames that show `d`: one static frame when it fits, otherwise one
/// animation frame for each of `1..=d.len()`.
pub open spec fn frames_of(d: Seq<u8>) -> Seq<Seq<u8>> {
    if d.len() <= 27 {
        seq![centered_frame(d)]
    } else {
        Seq::new(d.len(), |k: int| window_frame(d, k + 1))
    }
}

/// The static frame of `data`: it centred, zero elsewhere.
pub fn static_display(data: &[u8]) -> (r: Vec<u8>)
    requires
        data@.len() <= FRAME_WIDTH,
    ensures
        r@ == centered_frame(data@),
{
    let offset: usize = (FRAME_WIDTH - data.len()) / 2;
    let mut frame: Vec<u8> = Vec::new();
    let mut j: usize = 0;
    while j < FRAME_WIDTH
        invariant
            j <= FRAME_WIDTH,
            offset == center_offset(data@.len() as int),
            frame@.len() == j,
            forall|k: int| 0 <= k < j ==> frame@[k] == centered_frame(data@)[k],
        decreases FRAME_WIDTH - j,
    {
        if offset <= j && j < offset + data.len() {
            frame.push(data[j - offset]);
        } else {
            frame.push(0u8);
        }
        j = j + 1;
    }
    assert(frame@ =~= centered_frame(data@));
    frame
}

/// Animation frame `i` of `data`.
pub fn flow_frame(data: &[u8], i: usize) -> (r: Vec<u8>)
    requires
        1 <= i <= data@.len(),
    ensures
        r@ == window_frame(data@, i as int),
{
    let start: usize = if i > FRAME_WIDTH {
        i - FRAME_WIDTH
    } else {
        0
    };
    let width: usize = if i > FRAME_WIDTH {
        FRAME_WIDTH
    } else {
        i
    };
    let mut frame: Vec<u8> = Vec::new();
    let mut j: usize = 0;
    while j < FRAME_WIDTH
        invariant
            j <= FRAME_WIDTH,
            1 <= i <= data@.len(),
            start == window_start(i as int),
            width == window_len(i as int),
            frame@.len() == j,
            forall|k: int| 0 <= k < j ==> frame@[k] == window_frame(data@, i as int)[k],
        decreases FRAME_WIDTH - j,
    {
        if j < width {
            frame.push(data[start + j]);
        } else {
            frame.push(0u8);
        }
        j = j + 1;
    }
    assert(frame@ =~= window_frame(data@, i as int));
    frame
}

/// Every frame that shows `data`, in order.
pub fn frames(data: &[u8]) -> (r: Vec<Vec<u8>>)
    ensures
        r@.len() == frames_of(data@).len(),
        forall|k: int| 0 <= k < r@.len() ==> (#[trigger] r@[k])@ == frames_of(data@)[k],
{
    let mut out: Vec<Vec<u8>> = Vec::new();
    if data.len() <= FRAME_WIDTH {
        out.push(static_display(data));
    } else {
        let mut i: usize = 0;
        while i < data.len()
            invariant
                i <= data@.len(),
                data@.len() > 27,
                out@.len() == i,
                forall|k: int| 0 <= k < i ==> (#[trigger] out@[k])@ == window_frame(data@, k + 1),
            decreases data@.len() - i,
        {
            out.push(flow_frame(data, i + 1));
            i = i + 1;
        }
    }
    out
}

/// The payloads of one frame: columns `[0, 14)` for the left unit, columns
/// `[14, 27)` and then `status` for the right unit.
pub fn split_frame(frame: &[u8], status: u8) -> (r: (Vec<u8>, Vec<u8>))
    requires
        frame@.len() == FRAME_WIDTH,
    ensures
        r.0@ == frame@.subrange(0, 14),
        r.1@ == frame@.subrange(14, 27).push(status),
{
    let mut left: Vec<u8> = Vec::new();
    let mut right: Vec<u8> = Vec::new();
    let mut j: usize = 0;
    while j < FRAME_WIDTH
        invariant
            frame@.len() == FRAME_WIDTH,
            j <= FRAME_WIDTH,
            j <= LEFT_WIDTH ==> left@ == frame@.subrange(0, j as int) && right@.len() == 0,
            j > LEFT_WIDTH ==> left@ == frame@.subrange(0, 14) && right@ == frame@.subrange(
                14,
                j as int,
            ),
        decreases FRAME_WIDTH - j,
    {
        if j < LEFT_WIDTH {
            left.push(frame[j]);
            assert(frame@.subrange(0, j + 1) =~= frame@.subrange(0, j as int).push(frame@[j as int]));
        } else {
            right.push(frame[j]);
            assert(frame@.subrange(14, j + 1) =~= frame@.subrange(14, j as int).push(
                frame@[j as int],
            ));
        }
        j = j + 1;
    }
    right.push(status);
    (left, right)
}

/// Static frames centre: a buffer of at most 27 columns stands at offset
/// `(27 - len) / 2`, and every other column is zero.
pub proof fn lemma_static_frame_centered(d: Seq<u8>)
    requires
        d.len() <= 27,
    ensures
        frames_of(d).len() == 1,
        frames_of(d)[0].len() == 27,
        frames_of(d)[0].subrange(center_offset(d.len() as int), center_offset(d.len() as int)
            + d.len()) == d,
        forall|j: int|
            0 <= j < 27 && !(center_offset(d.len() as int) <= j < center_offset(d.len() as int)
                + d.len()) ==> #[trigger] frames_of(d)[0][j] == 0,
{
    let o = center_offset(d.len() as int);
    assert(frames_of(d)[0].subrange(o, o + d.len()) =~= d);
}

/// A buffer that fits takes one frame; a longer one takes exactly one frame
/// per column, and so `len` pauses of `FRAME_PAUSE_MS` in all.
pub proof fn lemma_frame_count(d: Seq<u8>)
    ensures
        d.len() <= 27 ==> frames_of(d).len() == 1,
        d.len() > 27 ==> frames_of(d).len() == d.len(),
{
}

/// A long buffer takes exactly one frame per column. In frame `i <= 27`
/// columns `[0, i)` are the buffer's first `i` and the rest are zero; in
/// frame `i > 27` the whole frame is the buffer's columns `[i - 27, i)`.
pub proof fn lemma_reveal_then_slide(d: Seq<u8>, i: int)
    requires
        d.len() > 27,
        1 <= i <= d.len(),
    ensures
        frames_of(d).len() == d.len(),
        i <= 27 ==> frames_of(d)[i - 1].subrange(0, i) == d.subrange(0, i),
        i <= 27 ==> forall|j: int| i <= j < 27 ==> #[trigger] frames_of(d)[i - 1][j] == 0,
        i > 27 ==> frames_of(d)[i - 1] == d.subrange(i - 27, i),
{
    let f = frames_of(d)[i - 1];
    assert(f == window_frame(d, i));
    if i <= 27 {
        assert(f.subrange(0, i) =~= d.subrange(0, i));
    } else {
        assert(f =~= d.subrange(i - 27, i));
    }
}

} // verus!
