//! Byte counts as short text for the display: a number with a unit letter,
//! computed on integers with exact rounding.
use vstd::prelude::*;
use crate::text::string_of;

verus! {

/// Bytes in a kibibyte.
pub const KIB: u64 = 1024;

/// Bytes in a mebibyte.
pub const MIB: u64 = 1_048_576;

/// Bytes in a gibibyte.
pub const GIB: u64 = 1_073_741_824;

/// Bytes in a tebibyte.
pub const TIB: u64 = 1_099_511_627_776;

/// `n / d` rounded to the nearest integer, a tie to the even one.
pub open spec fn round_half_even(n: int, d: int) -> int {
    let q = n / d;
    let r = n % d;
    if 2 * r > d || (2 * r == d && q % 2 == 1) {
        q + 1
    } else {
        q
    }
}

/// The character of the decimal digit `d`.
pub open spec fn digit(d: int) -> char {
    ((d + 48) as u8) as char
}

/// The decimal numeral of `n`, without leading zeros.
pub open spec fn decimal(n: nat) -> Seq<char>
    decreases n,
{
    if n < 10 {
        seq![digit(n as int)]
    } else {
        decimal(n / 10).push(digit((n % 10) as int))
    }
}

/// The numeral of `q / 10^places` with `places` digits after the point.
pub open spec fn fixed(q: nat, places: nat) -> Seq<char> {
    if places == 0 {
        decimal(q)
    } else if places == 1 {
        decimal(q / 10) + seq!['.', digit((q % 10) as int)]
    } else {
        decimal(q / 100) + seq!['.', digit(((q / 10) % 10) as int), digit((q % 10) as int)]
    }
}

/// The text of a byte total: above a TiB in TiB with two decimals and `T`,
/// above a GiB in GiB with two decimals and `G`, above a MiB in MiB with one
/// decimal and `M`, else in KiB with none and `K`; each value rounded to the
/// nearest, a tie to even.
pub open spec fn bytes_total_text(b: int) -> Seq<char> {
    if b > TIB {
        fixed(round_half_even(b * 100, TIB as int) as nat, 2).push('T')
    } else if b > GIB {
        fixed(round_half_even(b * 100, GIB as int) as nat, 2).push('G')
    } else if b > MIB {
        fixed(round_half_even(b * 10, MIB as int) as nat, 1).push('M')
    } else {
        fixed(round_half_even(b, KIB as int) as nat, 0).push('K')
    }
}

fn digit_char(d: u64) -> (r: char)
    requires
        d < 10,
    ensures
        r == digit(d as int),
{
    ((d as u8) + 48u8) as char
}

pub(crate) fn push_decimal(out: &mut Vec<char>, n: u64)
    ensures
        final(out)@ == old(out)@ + decimal(n as nat),
    decreases n,
{
    if n >= 10 {
        push_decimal(out, n / 10);
    }
    out.push(digit_char(n % 10));
    assert(final(out)@ =~= old(out)@ + decimal(n as nat));
}

fn push_fixed(out: &mut Vec<char>, q: u64, places: u8)
    requires
        places <= 2,
    ensures
        final(out)@ == old(out)@ + fixed(q as nat, places as nat),
{
    if places == 0 {
        push_decimal(out, q);
    } else if places == 1 {
        push_decimal(out, q / 10);
        out.push('.');
        out.push(digit_char(q % 10));
    } else {
        push_decimal(out, q / 100);
        out.push('.');
        out.push(digit_char((q / 10) % 10));
        out.push(digit_char(q % 10));
    }
    assert(final(out)@ =~= old(out)@ + fixed(q as nat, places as nat));
}

fn round_div(n: u128, d: u128) -> (r: u64)
    requires
        d > 0,
        n / d < 0xffff_ffff_0000_0000,
    ensures
        r == round_half_even(n as int, d as int),
{
    let q = n / d;
    let rem = n % d;
    if rem > d - rem || (rem == d - rem && q % 2 == 1) {
        (q + 1) as u64
    } else {
        q as u64
    }
}

/// The text of a byte total for the display, as `bytes_total_text` says.
pub fn format_bytes_total(bytes: u64) -> (r: String)
    ensures
        r@ == bytes_total_text(bytes as int),
{
    let b = bytes as u128;
    let mut out: Vec<char> = Vec::new();
    if bytes > TIB {
        assert((b * 100) as int / (TIB as int) < 0xffff_ffff_0000_0000) by (nonlinear_arith)
            requires
                b * 100 < 0x100_0000_0000_0000_0000,
        ;
        push_fixed(&mut out, round_div(b * 100, TIB as u128), 2);
        out.push('T');
    } else if bytes > GIB {
        assert((b * 100) as int / (GIB as int) < 0xffff_ffff_0000_0000) by (nonlinear_arith)
            requires
                b * 100 <= TIB * 100,
        ;
        push_fixed(&mut out, round_div(b * 100, GIB as u128), 2);
        out.push('G');
    } else if bytes > MIB {
        assert((b * 10) as int / (MIB as int) < 0xffff_ffff_0000_0000) by (nonlinear_arith)
            requires
                b * 10 <= GIB * 10,
        ;
        push_fixed(&mut out, round_div(b * 10, MIB as u128), 1);
        out.push('M');
    } else {
        push_fixed(&mut out, round_div(b, KIB as u128), 0);
        out.push('K');
    }
    assert(out@ =~= bytes_total_text(bytes as int));
    string_of(&out)
}

/// The short text of a byte count: above a GiB in GiB with one decimal and
/// `G`, else in MiB with none and `M`; rounded to the nearest, a tie to even.
pub open spec fn short_total_text(b: int) -> Seq<char> {
    if b > GIB {
        fixed(round_half_even(b * 10, GIB as int) as nat, 1).push('G')
    } else {
        fixed(round_half_even(b, MIB as int) as nat, 0).push('M')
    }
}

fn push_short_total(out: &mut Vec<char>, bytes: u64)
    ensures
        final(out)@ == old(out)@ + short_total_text(bytes as int),
{
    let b = bytes as u128;
    let ghost before = out@;
    if bytes > GIB {
        assert((b * 10) as int / (GIB as int) < 0xffff_ffff_0000_0000) by (nonlinear_arith)
            requires
                b * 10 < 0x10_0000_0000_0000_0000,
        ;
        push_fixed(out, round_div(b * 10, GIB as u128), 1);
        out.push('G');
    } else {
        push_fixed(out, round_div(b, MIB as u128), 0);
        out.push('M');
    }
    assert(out@ =~= before + short_total_text(bytes as int));
}

/// The received and sent totals as `T:` with each short text, `/` between.
pub open spec fn total_traffic_text(rx: int, tx: int) -> Seq<char> {
    seq!['T', ':'] + short_total_text(rx) + seq!['/'] + short_total_text(tx)
}

/// The text of the received and sent totals, each in short form.
pub fn total_traffic_string(rx: u64, tx: u64) -> (r: String)
    ensures
        r@ == total_traffic_text(rx as int, tx as int),
{
    let mut out: Vec<char> = Vec::new();
    out.push('T');
    out.push(':');
    push_short_total(&mut out, rx);
    out.push('/');
    push_short_total(&mut out, tx);
    assert(out@ =~= total_traffic_text(rx as int, tx as int));
    string_of(&out)
}

fn push_total(out: &mut Vec<char>, bytes: u64)
    ensures
        final(out)@ == old(out)@ + bytes_total_text(bytes as int),
{
    let s = format_bytes_total(bytes);
    let cs = crate::text::chars_of(s.as_str());
    let ghost before = out@;
    let mut i: usize = 0;
    while i < cs.len()
        invariant
            i <= cs@.len(),
            cs@ == bytes_total_text(bytes as int),
            out@ == before + cs@.subrange(0, i as int),
        decreases cs@.len() - i,
    {
        out.push(cs[i]);
        assert(cs@.subrange(0, i + 1) =~= cs@.subrange(0, i as int).push(cs@[i as int]));
        i = i + 1;
    }
    assert(cs@.subrange(0, cs@.len() as int) =~= cs@);
}

/// The text of the sum of both totals: `T:` and its total text.
pub fn traffic_total_string(rx: u64, tx: u64) -> (r: String)
    requires
        rx + tx <= u64::MAX,
    ensures
        r@ == seq!['T', ':'] + bytes_total_text(rx + tx),
{
    let mut out: Vec<char> = Vec::new();
    out.push('T');
    out.push(':');
    push_total(&mut out, rx + tx);
    assert(out@ =~= seq!['T', ':'] + bytes_total_text(rx + tx));
    string_of(&out)
}

/// The text of the received total: `TD:` and its total text.
pub fn total_rx_string(rx: u64) -> (r: String)
    ensures
        r@ == seq!['T', 'D', ':'] + bytes_total_text(rx as int),
{
    let mut out: Vec<char> = Vec::new();
    out.push('T');
    out.push('D');
    out.push(':');
    push_total(&mut out, rx);
    assert(out@ =~= seq!['T', 'D', ':'] + bytes_total_text(rx as int));
    string_of(&out)
}

/// The text of the sent total: `TU:` and its total text.
pub fn total_tx_string(tx: u64) -> (r: String)
    ensures
        r@ == seq!['T', 'U', ':'] + bytes_total_text(tx as int),
{
    let mut out: Vec<char> = Vec::new();
    out.push('T');
    out.push('U');
    out.push(':');
    push_total(&mut out, tx);
    assert(out@ =~= seq!['T', 'U', ':'] + bytes_total_text(tx as int));
    string_of(&out)
}

} // verus!
