//! Readings from the kernel's statistics texts: the byte counters of a
//! network interface, the CPU time counters, the load and the neighbour count.
use vstd::prelude::*;
use crate::monitor::{devices_string, devices_text};
use crate::text::{
    chars_of, contains_text, lines_of, parse_u64, str_contains, string_of, text_lines,
    text_words, u64_of, words_of,
};

verus! {

/// A counter as written, or zero when it is not a number.
pub open spec fn counter(w: Seq<char>) -> u64 {
    match u64_of(w) {
        Some(v) => v,
        None => 0,
    }
}

/// Where the received-bytes counter stands among the words of an interface
/// line: right after the name when the name carries its colon, else one later.
pub open spec fn rx_index(words: Seq<Seq<char>>) -> int {
    if words[0].contains(':') {
        1
    } else {
        2
    }
}

/// Whether `line` is the counter line of `iface`: it holds the name and has
/// words up to the sent-bytes counter, eight after the received-bytes one.
pub open spec fn is_iface_line(line: Seq<char>, iface: Seq<char>) -> bool {
    let ws = words_of(line);
    contains_text(line, iface) && ws.len() > 0 && ws.len() > rx_index(ws) + 8
}

/// The received and sent byte counters from the first counter line of
/// `iface` among `ls`; zeros when there is none.
pub open spec fn net_bytes_in(ls: Seq<Seq<char>>, iface: Seq<char>) -> (u64, u64)
    decreases ls.len(),
{
    if ls.len() == 0 {
        (0, 0)
    } else if is_iface_line(ls[0], iface) {
        let ws = words_of(ls[0]);
        (counter(ws[rx_index(ws)]), counter(ws[rx_index(ws) + 8]))
    } else {
        net_bytes_in(ls.drop_first(), iface)
    }
}

fn counter_of(w: &String) -> (r: u64)
    ensures
        r == counter(w@),
{
    match parse_u64(w.as_str()) {
        Some(v) => v,
        None => 0,
    }
}

fn has_colon(w: &String) -> (r: bool)
    ensures
        r == w@.contains(':'),
{
    let cs = chars_of(w.as_str());
    let mut i: usize = 0;
    while i < cs.len()
        invariant
            i <= cs@.len(),
            cs@ == w@,
            forall|k: int| 0 <= k < i ==> cs@[k] != ':',
        decreases cs@.len() - i,
    {
        if cs[i] == ':' {
            return true;
        }
        i = i + 1;
    }
    false
}

/// The received and sent byte counters of `interface` in the text of the
/// network device table.
pub fn read_net_bytes(content: &str, interface: &str) -> (r: (u64, u64))
    ensures
        r == net_bytes_in(lines_of(content@), interface@),
{
    let ls = text_lines(content);
    let ghost all = lines_of(content@);
    let mut i: usize = 0;
    assert(all.subrange(0, all.len() as int) =~= all);
    while i < ls.len()
        invariant
            i <= ls@.len(),
            all == lines_of(content@),
            ls@.len() == all.len(),
            forall|k: int| 0 <= k < ls@.len() ==> (#[trigger] ls@[k])@ == all[k],
            net_bytes_in(all, interface@) == net_bytes_in(all.subrange(i as int, all.len() as int), interface@),
        decreases ls@.len() - i,
    {
        let ghost rest = all.subrange(i as int, all.len() as int);
        assert(rest[0] == all[i as int]);
        assert(rest.drop_first() =~= all.subrange(i + 1, all.len() as int));
        let line = &ls[i];
        assert(line@ == rest[0]);
        if str_contains(line.as_str(), interface) {
            let parts = text_words(line.as_str());
            let ghost ws = words_of(line@);
            assert(forall|k: int| 0 <= k < parts@.len() ==> (#[trigger] parts@[k])@ == ws[k]);
            if parts.len() > 0 {
                assert(parts@[0]@ == ws[0]);
                let rx_idx: usize = if has_colon(&parts[0]) {
                    1
                } else {
                    2
                };
                let tx_idx: usize = rx_idx + 8;
                assert(rx_idx == rx_index(ws));
                if parts.len() > tx_idx {
                    assert(parts@[rx_idx as int]@ == ws[rx_idx as int]);
                    assert(parts@[tx_idx as int]@ == ws[tx_idx as int]);
                    assert(is_iface_line(rest[0], interface@));
                    assert(net_bytes_in(rest, interface@) == (
                    counter(ws[rx_idx as int]),
                    counter(ws[tx_idx as int]),
                    ));
                    let rx = counter_of(&parts[rx_idx]);
                    let tx = counter_of(&parts[tx_idx]);
                    return (rx, tx);
                }
            }
        }
        i = i + 1;
    }
    (0, 0)
}

/// Whether `s` starts with `cpu ` (the line of all CPUs together).
pub open spec fn is_total_cpu_line(s: Seq<char>) -> bool {
    s.len() >= 4 && s.subrange(0, 4) == seq!['c', 'p', 'u', ' ']
}

/// The counter at word `i`, or zero when the line has no such word or it
/// is not a number.
pub open spec fn counter_at(ws: Seq<Seq<char>>, i: int) -> u64 {
    if i < ws.len() {
        counter(ws[i])
    } else {
        0
    }
}

/// The sum of the user, nice, system, idle, iowait, irq and softirq times
/// of a CPU line, wrapping at 2^64.
pub open spec fn cpu_total(ws: Seq<Seq<char>>) -> u64 {
    ((counter_at(ws, 1) + counter_at(ws, 2) + counter_at(ws, 3) + counter_at(ws, 4) + counter_at(
        ws,
        5,
    ) + counter_at(ws, 6) + counter_at(ws, 7)) % 0x1_0000_0000_0000_0000) as u64
}

/// The total and idle CPU times from the first line of the CPU statistics;
/// zeros when it is not the line of all CPUs with at least four times.
pub open spec fn cpu_stats_of(ls: Seq<Seq<char>>) -> (u64, u64) {
    if ls.len() > 0 && is_total_cpu_line(ls[0]) && words_of(ls[0]).len() >= 5 {
        (cpu_total(words_of(ls[0])), counter(words_of(ls[0])[4]))
    } else {
        (0, 0)
    }
}

fn counter_at_exec(ws: &Vec<String>, i: usize) -> (r: u64)
    ensures
        r == (if i < ws@.len() {
            counter(ws@[i as int]@)
        } else {
            0
        }),
{
    if i < ws.len() {
        counter_of(&ws[i])
    } else {
        0
    }
}

/// The total and idle CPU times in the text of the CPU statistics.
pub fn read_cpu_stats(content: &str) -> (r: (u64, u64))
    ensures
        r == cpu_stats_of(lines_of(content@)),
{
    let ls = text_lines(content);
    if ls.len() == 0 {
        return (0, 0);
    }
    let cs = chars_of(ls[0].as_str());
    let starts = cs.len() >= 4 && cs[0] == 'c' && cs[1] == 'p' && cs[2] == 'u' && cs[3] == ' ';
    assert(starts == is_total_cpu_line(lines_of(content@)[0])) by {
        if cs@.len() >= 4 {
            if starts {
                assert(cs@.subrange(0, 4) =~= seq!['c', 'p', 'u', ' ']);
            } else {
                let p = cs@.subrange(0, 4);
                assert(p[0] == cs@[0] && p[1] == cs@[1] && p[2] == cs@[2] && p[3] == cs@[3]);
            }
        }
    }
    if !starts {
        return (0, 0);
    }
    let parts = text_words(ls[0].as_str());
    if parts.len() < 5 {
        return (0, 0);
    }
    let ghost ws = words_of(lines_of(content@)[0]);
    assert(forall|k: int| 0 <= k < parts@.len() ==> (#[trigger] parts@[k])@ == ws[k]);
    let mut total: u64 = 0;
    let mut k: usize = 1;
    while k <= 7
        invariant
            1 <= k <= 8,
            parts@.len() == ws.len(),
            forall|j: int| 0 <= j < parts@.len() ==> (#[trigger] parts@[j])@ == ws[j],
            total == ((if k > 1 { counter_at(ws, 1) as int } else { 0 }) + (if k > 2 {
                counter_at(ws, 2) as int
            } else {
                0
            }) + (if k > 3 { counter_at(ws, 3) as int } else { 0 }) + (if k > 4 {
                counter_at(ws, 4) as int
            } else {
                0
            }) + (if k > 5 { counter_at(ws, 5) as int } else { 0 }) + (if k > 6 {
                counter_at(ws, 6) as int
            } else {
                0
            }) + (if k > 7 { counter_at(ws, 7) as int } else { 0 })) % 0x1_0000_0000_0000_0000,
        decreases 8 - k,
    {
        let c = counter_at_exec(&parts, k);
        total = total.wrapping_add(c);
        k = k + 1;
    }
    let idle = counter_of(&parts[4]);
    (total, idle)
}

/// The load text: `L:` and the first word of the load average text, or
/// `L:Err` when it has none.
pub open spec fn load_text(content: Seq<char>) -> Seq<char> {
    if words_of(content).len() > 0 {
        seq!['L', ':'] + words_of(content)[0]
    } else {
        seq!['L', ':', 'E', 'r', 'r']
    }
}

/// The load text from the text of the load average.
pub fn get_load_string(content: &str) -> (r: String)
    ensures
        r@ == load_text(content@),
{
    let parts = text_words(content);
    let mut out: Vec<char> = Vec::new();
    out.push('L');
    out.push(':');
    if parts.len() > 0 {
        let w = chars_of(parts[0].as_str());
        let mut i: usize = 0;
        while i < w.len()
            invariant
                i <= w@.len(),
                out@ == seq!['L', ':'] + w@.subrange(0, i as int),
            decreases w@.len() - i,
        {
            out.push(w[i]);
            assert(w@.subrange(0, i + 1) =~= w@.subrange(0, i as int).push(w@[i as int]));
            i = i + 1;
        }
        assert(w@.subrange(0, w@.len() as int) =~= w@);
    } else {
        out.push('E');
        out.push('r');
        out.push('r');
    }
    assert(out@ =~= load_text(content@));
    string_of(&out)
}

/// The device count text from the text of the neighbour table, whose first
/// line is a header.
pub fn get_online_devices(content: &str) -> (r: String)
    ensures
        r@ == devices_text(lines_of(content@).len()),
{
    let ls = text_lines(content);
    devices_string(ls.len() as u64)
}

} // verus!
