use athena_led::glyph::{encode, GlyphTable};
use athena_led::protocol::{
    power_command, transaction, Edge, Line, ADDRESS_COMMAND, DATA_MODE_COMMAND,
    DISPLAY_MODE_COMMAND,
};
use athena_led::render::{flow_frame, frames, split_frame, static_display};
use athena_led::screen::{LedScreen, LedScreenUnit, Side};

fn sample_table() -> GlyphTable {
    let mut t = GlyphTable::new();
    t.insert('A', vec![0x1e, 0x05, 0x05, 0x1e, 0x00]);
    t.insert('B', vec![0x1f, 0x15, 0x15, 0x0a, 0x1f]);
    t.insert('1', vec![0x12, 0x1f, 0x10]);
    t.insert('℃', vec![0x03, 0x03, 0x0e, 0x11, 0x11]);
    t
}

/// Levels of the data line at each edge that drives the clock high.
fn latched(edges: &[Edge]) -> Vec<Option<bool>> {
    let mut level = None;
    let mut out = Vec::new();
    for e in edges {
        match e.line {
            Line::Data => level = Some(e.high),
            Line::Clock if e.high => out.push(level),
            _ => {}
        }
    }
    out
}

fn bits(v: u8, n: u32) -> Vec<Option<bool>> {
    (0..n).map(|i| Some((v >> i) & 1 == 1)).collect()
}

#[test]
fn power_off_is_0x80() {
    assert_eq!(power_command(false, 0), 0x80);
    assert_eq!(power_command(false, 5), 0x80);
    assert_eq!(power_command(false, 255), 0x80);
}

#[test]
fn power_on_carries_brightness() {
    assert_eq!(power_command(true, 5), 0x8D);
    assert_eq!(power_command(true, 0), 0x88);
    assert_eq!(power_command(true, 7), 0x8F);
}

#[test]
fn power_brightness_is_masked() {
    assert_eq!(power_command(true, 11), power_command(true, 3));
    assert_eq!(power_command(true, 11), 0x8B);
}

#[test]
fn screen_power_sends_same_command_to_both_units() {
    let s = LedScreen::new(581, 582, 585, 586, sample_table());
    let ts = s.power(true, 13);
    assert_eq!(ts.len(), 2);
    assert_eq!(ts[0].side, Side::Left);
    assert_eq!(ts[1].side, Side::Right);
    assert_eq!(ts[0].command, 0x8D);
    assert_eq!(ts[1].command, 0x8D);
    assert!(ts[0].payload.is_empty() && ts[1].payload.is_empty());
}

#[test]
fn setup_commands() {
    let s = LedScreen::new(581, 582, 585, 586, sample_table());
    let show = s.set_show_model();
    let data = s.set_data_model();
    assert_eq!(show.len(), 2);
    assert_eq!(data.len(), 2);
    assert!(show.iter().all(|t| t.command == 0b0000_0011 && t.payload.is_empty()));
    assert!(data.iter().all(|t| t.command == 0b0100_0000 && t.payload.is_empty()));
    assert_eq!(DISPLAY_MODE_COMMAND, 0x03);
    assert_eq!(DATA_MODE_COMMAND, 0x40);
    assert_eq!(ADDRESS_COMMAND, 0xC0);
}

#[test]
fn command_bits_latched_lsb_first() {
    for v in [0x00u8, 0x03, 0x40, 0xC0, 0x8D, 0xA5, 0xFF] {
        let es = transaction(v, &[]);
        assert_eq!(latched(&es), bits(v, 8));
    }
}

#[test]
fn transaction_frame_of_strobe() {
    let es = transaction(0xC0, &[1, 2, 3]);
    assert_eq!(es.first(), Some(&Edge { line: Line::Strobe, high: false }));
    assert_eq!(es.last(), Some(&Edge { line: Line::Strobe, high: true }));
    let strobes = es.iter().filter(|e| e.line == Line::Strobe).count();
    assert_eq!(strobes, 2);
}

#[test]
fn bit_edges_are_clock_low_data_clock_high() {
    let es = transaction(0x01, &[]);
    assert_eq!(es.len(), 1 + 3 * 8 + 1);
    assert_eq!(es[1], Edge { line: Line::Clock, high: false });
    assert_eq!(es[2], Edge { line: Line::Data, high: true });
    assert_eq!(es[3], Edge { line: Line::Clock, high: true });
    assert_eq!(es[5], Edge { line: Line::Data, high: false });
}

#[test]
fn payload_padding_on_odd_positions() {
    let es = transaction(0xC0, &[0xFF, 0xFF, 0x15]);
    let got = latched(&es);
    let mut want = bits(0xC0, 8);
    want.extend(bits(0xFF, 5));
    want.extend(bits(0xFF, 5));
    want.extend(std::iter::repeat(Some(false)).take(6));
    want.extend(bits(0x15, 5));
    assert_eq!(got, want);
    assert_eq!(got.len(), 8 + 5 + 11 + 5);
}

#[test]
fn full_unit_payload_bit_count() {
    let payload = [0x1fu8; 14];
    let es = transaction(0xC0, &payload);
    assert_eq!(latched(&es).len(), 8 + 14 * 5 + 7 * 6);
}

#[test]
fn unit_methods_use_their_commands() {
    let u = LedScreenUnit::new(1, 2, 3);
    assert_eq!(u.set_show_model(), transaction(0x03, &[]));
    assert_eq!(u.set_data_model(), transaction(0x40, &[]));
    assert_eq!(u.power(true, 5), transaction(0x8D, &[]));
    assert_eq!(u.power(false, 5), transaction(0x80, &[]));
    assert_eq!(u.printf(&[9, 8]), transaction(0xC0, &[9, 8]));
    assert_eq!(u.line_id(Line::Strobe), 1);
    assert_eq!(u.line_id(Line::Clock), 2);
    assert_eq!(u.line_id(Line::Data), 3);
}

#[test]
fn encode_appends_spacer() {
    let t = sample_table();
    assert_eq!(encode(&t, b"1"), vec![0x12, 0x1f, 0x10, 0x00]);
    assert_eq!(encode(&t, b"A1").len(), 6 + 4);
}

#[test]
fn encode_drops_unknown_characters() {
    let t = sample_table();
    assert_eq!(encode(&t, b"A?B"), encode(&t, b"AB"));
    assert_eq!(encode(&t, b"?"), Vec::<u8>::new());
    assert_eq!(encode(&t, b""), Vec::<u8>::new());
}

#[test]
fn encode_upper_cases_ascii() {
    let t = sample_table();
    assert_eq!(encode(&t, b"ab"), encode(&t, b"AB"));
    assert!(!encode(&t, b"a").is_empty());
}

#[test]
fn encode_matches_multibyte_characters_whole() {
    let t = sample_table();
    assert_eq!(encode(&t, "1℃".as_bytes()), vec![0x12, 0x1f, 0x10, 0, 0x03, 0x03, 0x0e, 0x11, 0x11, 0]);
}

#[test]
fn encode_invalid_utf8_is_empty() {
    let t = sample_table();
    assert_eq!(encode(&t, &[b'A', 0xff, b'B']), Vec::<u8>::new());
    assert_eq!(encode(&t, &[0xe2, 0x84]), Vec::<u8>::new());
}

#[test]
fn glyph_table_insert_replaces() {
    let mut t = GlyphTable::new();
    assert!(t.get('X').is_none());
    t.insert('X', vec![1]);
    t.insert('X', vec![2, 3]);
    assert_eq!(t.get('X'), Some(&vec![2, 3]));
}

#[test]
fn static_centering_length_12() {
    let d: Vec<u8> = (1..=12).collect();
    let f = static_display(&d);
    assert_eq!(f.len(), 27);
    assert!(f[..7].iter().all(|&c| c == 0));
    assert_eq!(&f[7..19], &d[..]);
    assert!(f[19..].iter().all(|&c| c == 0));
}

#[test]
fn static_full_width_has_no_padding() {
    let d: Vec<u8> = (1..=27).collect();
    assert_eq!(static_display(&d), d);
}

#[test]
fn static_empty_buffer_is_blank() {
    assert_eq!(static_display(&[]), vec![0u8; 27]);
}

#[test]
fn static_odd_padding_rounds_down() {
    let f = static_display(&[9, 9]);
    assert_eq!(f[12], 9);
    assert_eq!(f[13], 9);
    assert_eq!(f[11], 0);
    assert_eq!(f[14], 0);
}

#[test]
fn split_exact() {
    let frame: Vec<u8> = (0..27).collect();
    let (l, r) = split_frame(&frame, 0xAA);
    assert_eq!(l, (0..14).collect::<Vec<u8>>());
    let mut want: Vec<u8> = (14..27).collect();
    want.push(0xAA);
    assert_eq!(r, want);
    assert_eq!(r.len(), 14);
}

#[test]
fn animated_frame_count() {
    let d: Vec<u8> = (1..=30).collect();
    assert_eq!(frames(&d).len(), 30);
    let d: Vec<u8> = (1..=28).collect();
    assert_eq!(frames(&d).len(), 28);
    let d: Vec<u8> = (1..=27).collect();
    assert_eq!(frames(&d).len(), 1);
}

#[test]
fn reveal_phase() {
    let d: Vec<u8> = (1..=30).collect();
    let f1 = flow_frame(&d, 1);
    assert_eq!(f1[0], 1);
    assert!(f1[1..].iter().all(|&c| c == 0));
    let f10 = flow_frame(&d, 10);
    assert_eq!(&f10[..10], &d[..10]);
    assert!(f10[10..].iter().all(|&c| c == 0));
    assert_eq!(flow_frame(&d, 27), d[..27].to_vec());
}

#[test]
fn slide_phase() {
    let d: Vec<u8> = (1..=30).collect();
    assert_eq!(flow_frame(&d, 28), d[1..28].to_vec());
    assert_eq!(flow_frame(&d, 30), d[3..30].to_vec());
    let fs = frames(&d);
    assert_eq!(fs[29], d[3..30].to_vec());
    assert_eq!(fs[0], flow_frame(&d, 1));
}

#[test]
fn write_data_static() {
    let s = LedScreen::new(581, 582, 585, 586, sample_table());
    let r = s.write_data(b"AB", 1);
    assert_eq!(r.pause_ms, 0);
    assert_eq!(r.transfers.len(), 2);
    let buf = encode(&s.glyphs, b"AB");
    assert_eq!(buf.len(), 12);
    let frame = static_display(&buf);
    assert_eq!(r.transfers[0].side, Side::Left);
    assert_eq!(r.transfers[0].command, 0xC0);
    assert_eq!(r.transfers[0].payload, frame[..14].to_vec());
    assert_eq!(r.transfers[1].side, Side::Right);
    let mut right = frame[14..].to_vec();
    right.push(1);
    assert_eq!(r.transfers[1].payload, right);
}

#[test]
fn write_data_animated() {
    let s = LedScreen::new(581, 582, 585, 586, sample_table());
    let r = s.write_data(b"ABABA", 8);
    let buf = encode(&s.glyphs, b"ABABA");
    assert_eq!(buf.len(), 30);
    assert_eq!(r.pause_ms, 128);
    assert_eq!(r.transfers.len(), 60);
    for (k, f) in frames(&buf).iter().enumerate() {
        assert_eq!(r.transfers[2 * k].payload, f[..14].to_vec());
        assert_eq!(r.transfers[2 * k + 1].payload.len(), 14);
        assert_eq!(r.transfers[2 * k + 1].payload[13], 8);
    }
}

#[test]
fn write_data_nothing_renders_blank_frame() {
    let s = LedScreen::new(581, 582, 585, 586, sample_table());
    let r = s.write_data(b"        ", 0);
    assert_eq!(r.transfers.len(), 2);
    assert_eq!(r.transfers[0].payload, vec![0u8; 14]);
    let mut right = vec![0u8; 13];
    right.push(0);
    assert_eq!(r.transfers[1].payload, right);
}

#[test]
fn lines_released_once_each() {
    let s = LedScreen::new(581, 582, 585, 586, GlyphTable::new());
    let mut ls = s.lines();
    ls.sort();
    assert_eq!(ls, vec![581, 582, 585, 586]);
    assert_eq!(s.unit(Side::Left).stb, 581);
    assert_eq!(s.unit(Side::Right).stb, 582);
}

#[test]
fn lines_deduplicate_shared_strobe() {
    let s = LedScreen::new(7, 7, 8, 8, GlyphTable::new());
    let mut ls = s.lines();
    ls.sort();
    assert_eq!(ls, vec![7, 8]);
}

#[test]
fn start_up_sends_display_then_data_mode() {
    let s = LedScreen::new(581, 582, 585, 586, sample_table());
    let ts = s.start_up();
    assert_eq!(ts.len(), 4);
    let got: Vec<(Side, u8, usize)> = ts.iter().map(|t| (t.side, t.command, t.payload.len())).collect();
    assert_eq!(
        got,
        vec![
            (Side::Left, DISPLAY_MODE_COMMAND, 0),
            (Side::Right, DISPLAY_MODE_COMMAND, 0),
            (Side::Left, DATA_MODE_COMMAND, 0),
            (Side::Right, DATA_MODE_COMMAND, 0),
        ]
    );
    assert_eq!(s.unit(Side::Left).stb, 581);
    assert_eq!(s.unit(Side::Right).stb, 582);
    assert_eq!(s.unit(Side::Left).clk, 585);
    assert_eq!(s.unit(Side::Right).dio, 586);
}
