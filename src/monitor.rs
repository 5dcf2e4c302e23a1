//! The texts and icons that the monitor shows: what it computes from the
//! counters, times and replies that the hardware layer reads for it.
use vstd::prelude::*;
use crate::text::{
    chars_of, contains, contains_text, lowercase, lowered, same_text, string_of, trim_text, trimmed,
};
use crate::traffic::{decimal, push_decimal};

verus! {

/// Sun.
pub const SUN: char = '\u{2600}';

/// Sun, second animation frame.
pub const SUN_ALT: char = '\u{263c}';

/// Umbrella (rain).
pub const RAIN: char = '\u{2602}';

/// Umbrella with drops, second rain frame.
pub const RAIN_ALT: char = '\u{2614}';

/// Cloud.
pub const CLOUD: char = '\u{2601}';

/// Sun behind cloud, second cloud frame.
pub const CLOUD_ALT: char = '\u{1f325}';

/// Snowflake.
pub const SNOW: char = '\u{2744}';

/// Snowflake, second snow frame.
pub const SNOW_ALT: char = '\u{2745}';

/// Lightning.
pub const THUNDER: char = '\u{26a1}';

/// Lightning, second thunder frame.
pub const THUNDER_ALT: char = '\u{2607}';

/// Fog.
pub const FOG: char = '\u{1f32b}';

/// The second animation frame of a weather icon; other characters stay.
pub open spec fn alternate_icon(c: char) -> char {
    if c == SUN {
        SUN_ALT
    } else if c == RAIN {
        RAIN_ALT
    } else if c == CLOUD {
        CLOUD_ALT
    } else if c == SNOW {
        SNOW_ALT
    } else if c == THUNDER {
        THUNDER_ALT
    } else {
        c
    }
}

/// The icon to show: the icon itself on the first frame, its alternate on
/// the second when the icon is a single weather character.
pub open spec fn animated_icon_spec(icon: Seq<char>, frame_toggle: bool) -> Seq<char> {
    if !frame_toggle && icon.len() == 1 {
        seq![alternate_icon(icon[0])]
    } else {
        icon
    }
}

fn alternate(c: char) -> (r: char)
    ensures
        r == alternate_icon(c),
{
    if c == SUN {
        SUN_ALT
    } else if c == RAIN {
        RAIN_ALT
    } else if c == CLOUD {
        CLOUD_ALT
    } else if c == SNOW {
        SNOW_ALT
    } else if c == THUNDER {
        THUNDER_ALT
    } else {
        c
    }
}

/// The weather icon for one animation frame.
pub fn get_animated_icon(static_icon: &str, frame_toggle: bool) -> (r: String)
    ensures
        r@ == animated_icon_spec(static_icon@, frame_toggle),
{
    let cs = chars_of(static_icon);
    if !frame_toggle && cs.len() == 1 {
        let mut out: Vec<char> = Vec::new();
        out.push(alternate(cs[0]));
        assert(out@ =~= animated_icon_spec(static_icon@, frame_toggle));
        string_of(&out)
    } else {
        string_of(&cs)
    }
}

/// The uptime text: `Up:` with days and hours when a day has passed, hours
/// and minutes when an hour has, else minutes.
pub open spec fn uptime_text(secs: nat) -> Seq<char> {
    let days = secs / 86400;
    let hours = (secs % 86400) / 3600;
    let mins = (secs % 3600) / 60;
    if days > 0 {
        seq!['U', 'p', ':'] + decimal(days) + seq!['d'] + decimal(hours) + seq!['h']
    } else if hours > 0 {
        seq!['U', 'p', ':'] + decimal(hours) + seq!['h'] + decimal(mins) + seq!['m']
    } else {
        seq!['U', 'p', ':'] + decimal(mins) + seq!['m']
    }
}

/// The uptime text for `secs` whole seconds since boot.
pub fn uptime_string(secs: u64) -> (r: String)
    ensures
        r@ == uptime_text(secs as nat),
{
    let days = secs / 86400;
    let hours = (secs % 86400) / 3600;
    let mins = (secs % 3600) / 60;
    let mut out: Vec<char> = Vec::new();
    out.push('U');
    out.push('p');
    out.push(':');
    if days > 0 {
        push_decimal(&mut out, days);
        out.push('d');
        push_decimal(&mut out, hours);
        out.push('h');
    } else if hours > 0 {
        push_decimal(&mut out, hours);
        out.push('h');
        push_decimal(&mut out, mins);
        out.push('m');
    } else {
        push_decimal(&mut out, mins);
        out.push('m');
    }
    assert(out@ =~= uptime_text(secs as nat));
    string_of(&out)
}

/// The text of the device count: the lines of the neighbour table less its
/// header line, `Dev:0` when there is none.
pub open spec fn devices_text(line_count: nat) -> Seq<char> {
    if line_count > 1 {
        seq!['D', 'e', 'v', ':'] + decimal((line_count - 1) as nat)
    } else {
        seq!['D', 'e', 'v', ':', '0']
    }
}

/// The device count text for a neighbour table of `line_count` lines.
pub fn devices_string(line_count: u64) -> (r: String)
    ensures
        r@ == devices_text(line_count as nat),
{
    let mut out: Vec<char> = Vec::new();
    out.push('D');
    out.push('e');
    out.push('v');
    out.push(':');
    if line_count > 1 {
        push_decimal(&mut out, line_count - 1);
    } else {
        out.push('0');
    }
    assert(out@ =~= devices_text(line_count as nat));
    string_of(&out)
}

/// The clock text with each `:` turned into `;`, for the blinking phase.
pub open spec fn blinked(s: Seq<char>) -> Seq<char> {
    s.map_values(|c: char| if c == ':' { ';' } else { c })
}

/// The clock text for the phase of the blink in which the colon is hidden.
pub fn blink_time(time_str: &str) -> (r: String)
    ensures
        r@ == blinked(time_str@),
{
    let cs = chars_of(time_str);
    let mut out: Vec<char> = Vec::new();
    let mut i: usize = 0;
    while i < cs.len()
        invariant
            i <= cs@.len(),
            out@ == blinked(cs@.subrange(0, i as int)),
        decreases cs@.len() - i,
    {
        let c = cs[i];
        out.push(if c == ':' { ';' } else { c });
        assert(blinked(cs@.subrange(0, i + 1)) =~= blinked(cs@.subrange(0, i as int)).push(
            if c == ':' { ';' } else { c },
        ));
        i = i + 1;
    }
    assert(cs@.subrange(0, cs@.len() as int) =~= cs@);
    string_of(&out)
}

/// The icon of a daily-forecast weather code: 0-3 sun, 4-9 cloud, 10-19
/// rain, 20-29 snow, 30-36 cloud, anything else sun.
pub open spec fn daily_code_icon(code: i32) -> char {
    if 0 <= code <= 3 {
        SUN
    } else if 4 <= code <= 9 {
        CLOUD
    } else if 10 <= code <= 19 {
        RAIN
    } else if 20 <= code <= 29 {
        SNOW
    } else if 30 <= code <= 36 {
        CLOUD
    } else {
        SUN
    }
}

/// The icon of a daily-forecast weather code.
pub fn seniverse_icon(code: i32) -> (r: char)
    ensures
        r == daily_code_icon(code),
{
    if 0 <= code && code <= 3 {
        SUN
    } else if 4 <= code && code <= 9 {
        CLOUD
    } else if 10 <= code && code <= 19 {
        RAIN
    } else if 20 <= code && code <= 29 {
        SNOW
    } else if 30 <= code && code <= 36 {
        CLOUD
    } else {
        SUN
    }
}

/// The icon of a WMO weather code: 0 sun; 1-3 cloud; 45, 48 fog; 51-67 and
/// 80-82 rain; 71-77 and 85-86 snow; 95-99 thunder; anything else `?`.
pub open spec fn wmo_code_icon(code: u8) -> char {
    if code == 0 {
        SUN
    } else if 1 <= code <= 3 {
        CLOUD
    } else if code == 45 || code == 48 {
        FOG
    } else if (51 <= code <= 67) || (80 <= code <= 82) {
        RAIN
    } else if (71 <= code <= 77) || (85 <= code <= 86) {
        SNOW
    } else if 95 <= code <= 99 {
        THUNDER
    } else {
        '?'
    }
}

/// The icon of a WMO weather code.
pub fn open_meteo_icon(code: u8) -> (r: char)
    ensures
        r == wmo_code_icon(code),
{
    if code == 0 {
        SUN
    } else if 1 <= code && code <= 3 {
        CLOUD
    } else if code == 45 || code == 48 {
        FOG
    } else if (51 <= code && code <= 67) || (80 <= code && code <= 82) {
        RAIN
    } else if (71 <= code && code <= 77) || (85 <= code && code <= 86) {
        SNOW
    } else if 95 <= code && code <= 99 {
        THUNDER
    } else {
        '?'
    }
}

fn has_char(s: &Vec<char>, c: char) -> (r: bool)
    ensures
        r == s@.contains(c),
{
    let mut i: usize = 0;
    while i < s.len()
        invariant
            i <= s@.len(),
            forall|k: int| 0 <= k < i ==> s@[k] != c,
        decreases s@.len() - i,
    {
        if s[i] == c {
            return true;
        }
        i = i + 1;
    }
    false
}

/// The icon of a Chinese weather description: rain (雨), else snow (雪),
/// else cloud for cloud, overcast, fog or haze (云, 阴, 雾, 霾), else sun.
pub open spec fn chinese_desc_icon(desc: Seq<char>) -> char {
    if desc.contains('\u{96e8}') {
        RAIN
    } else if desc.contains('\u{96ea}') {
        SNOW
    } else if desc.contains('\u{4e91}') || desc.contains('\u{9634}') || desc.contains('\u{96fe}')
        || desc.contains('\u{973e}') {
        CLOUD
    } else {
        SUN
    }
}

/// The icon of a Chinese weather description.
pub fn uapis_icon(desc: &str) -> (r: char)
    ensures
        r == chinese_desc_icon(desc@),
{
    let cs = chars_of(desc);
    if has_char(&cs, '\u{96e8}') {
        RAIN
    } else if has_char(&cs, '\u{96ea}') {
        SNOW
    } else if has_char(&cs, '\u{4e91}') || has_char(&cs, '\u{9634}') || has_char(&cs, '\u{96fe}')
        || has_char(&cs, '\u{973e}') {
        CLOUD
    } else {
        SUN
    }
}

/// The icon of a lower-case English weather description: rain for rain,
/// shower or drizzle; else snow for snow, ice or hail; else thunder; else
/// cloud for cloud or overcast; else fog for mist or fog; else sun.
pub open spec fn english_desc_icon(d: Seq<char>) -> char {
    if contains_text(d, seq!['r', 'a', 'i', 'n']) || contains_text(
        d,
        seq!['s', 'h', 'o', 'w', 'e', 'r'],
    ) || contains_text(d, seq!['d', 'r', 'i', 'z', 'z', 'l', 'e']) {
        RAIN
    } else if contains_text(d, seq!['s', 'n', 'o', 'w']) || contains_text(d, seq!['i', 'c', 'e'])
        || contains_text(d, seq!['h', 'a', 'i', 'l']) {
        SNOW
    } else if contains_text(d, seq!['t', 'h', 'u', 'n', 'd', 'e', 'r']) {
        THUNDER
    } else if contains_text(d, seq!['c', 'l', 'o', 'u', 'd']) || contains_text(
        d,
        seq!['o', 'v', 'e', 'r', 'c', 'a', 's', 't'],
    ) {
        CLOUD
    } else if contains_text(d, seq!['m', 'i', 's', 't']) || contains_text(d, seq!['f', 'o', 'g']) {
        FOG
    } else {
        SUN
    }
}

/// The icon of an English weather description that is already lower case.
pub fn english_icon(lower: &Vec<char>) -> (r: char)
    ensures
        r == english_desc_icon(lower@),
{
    if contains(lower, &vec!['r', 'a', 'i', 'n']) || contains(
        lower,
        &vec!['s', 'h', 'o', 'w', 'e', 'r'],
    ) || contains(lower, &vec!['d', 'r', 'i', 'z', 'z', 'l', 'e']) {
        RAIN
    } else if contains(lower, &vec!['s', 'n', 'o', 'w']) || contains(
        lower,
        &vec!['i', 'c', 'e'],
    ) || contains(lower, &vec!['h', 'a', 'i', 'l']) {
        SNOW
    } else if contains(lower, &vec!['t', 'h', 'u', 'n', 'd', 'e', 'r']) {
        THUNDER
    } else if contains(lower, &vec!['c', 'l', 'o', 'u', 'd'])
        || contains(lower, &vec!['o', 'v', 'e', 'r', 'c', 'a', 's', 't']) {
        CLOUD
    } else if contains(lower, &vec!['m', 'i', 's', 't']) || contains(
        lower,
        &vec!['f', 'o', 'g'],
    ) {
        FOG
    } else {
        SUN
    }
}

/// The icon of an English weather description, in any case.
pub fn wttr_icon(desc: &str) -> (r: char)
    ensures
        r == english_desc_icon(lowered(desc@)),
{
    english_icon(&chars_of(lowercase(desc).as_str()))
}

/// `full` split at its first space: the part before it and the part after it.
pub fn split_icon(full: &str) -> (r: Option<(String, String)>)
    ensures
        r is None <==> !full@.contains(' '),
        r matches Some(p) ==> full@ == p.0@ + seq![' '] + p.1@ && !p.0@.contains(' '),
{
    let cs = chars_of(full);
    let mut i: usize = 0;
    while i < cs.len()
        invariant
            i <= cs@.len(),
            cs@ == full@,
            forall|k: int| 0 <= k < i ==> cs@[k] != ' ',
        decreases cs@.len() - i,
    {
        if cs[i] == ' ' {
            let mut head: Vec<char> = Vec::new();
            let mut tail: Vec<char> = Vec::new();
            let mut j: usize = 0;
            while j < cs.len()
                invariant
                    i < cs@.len(),
                    j <= cs@.len(),
                    j <= i ==> head@ == cs@.subrange(0, j as int) && tail@.len() == 0,
                    j > i ==> head@ == cs@.subrange(0, i as int) && tail@ == cs@.subrange(
                        i + 1,
                        j as int,
                    ),
                decreases cs@.len() - j,
            {
                if j < i {
                    head.push(cs[j]);
                    assert(cs@.subrange(0, j + 1) =~= cs@.subrange(0, j as int).push(cs@[j as int]));
                } else if j > i {
                    tail.push(cs[j]);
                    assert(cs@.subrange(i + 1, j + 1) =~= cs@.subrange(i + 1, j as int).push(
                        cs@[j as int],
                    ));
                } else {
                    assert(cs@.subrange(i + 1, j + 1) =~= Seq::<char>::empty());
                }
                j = j + 1;
            }
            assert(full@ =~= head@ + seq![' '] + tail@);
            assert(!head@.contains(' ')) by {
                assert forall|k: int| 0 <= k < head@.len() implies head@[k] != ' ' by {
                    assert(head@[k] == cs@[k]);
                }
            }
            return Some((string_of(&head), string_of(&tail)));
        }
        i = i + 1;
    }
    None
}

/// Whether position `j` of `s` belongs to a temperature: a minus sign in
/// front, a decimal digit, or a point.
pub open spec fn temp_char(s: Seq<char>, j: int) -> bool {
    (j == 0 && s[j] == '-') || ('0' <= s[j] && s[j] <= '9') || s[j] == '.'
}

/// The length of the temperature that `s` starts with, looking from `j` on.
pub open spec fn temp_len_from(s: Seq<char>, j: int) -> int
    decreases s.len() - j,
{
    if 0 <= j < s.len() && temp_char(s, j) {
        temp_len_from(s, j + 1)
    } else {
        j
    }
}

/// The temperature part of a weather text: in the simple form the number
/// that `rest` starts with, followed by `℃` unless it is negative; in the
/// full form a space and `rest` as it is.
pub open spec fn temp_part_text(rest: Seq<char>, simple: bool) -> Seq<char> {
    if simple {
        let t = rest.subrange(0, temp_len_from(rest, 0));
        if t.len() > 0 && t[0] == '-' {
            t
        } else {
            t.push('\u{2103}')
        }
    } else {
        seq![' '] + rest
    }
}

/// The temperature part of a weather text, from the text after its icon
/// with the surrounding white space already taken off.
pub fn weather_temp_part(clean_rest: &str, simple: bool) -> (r: String)
    ensures
        r@ == temp_part_text(clean_rest@, simple),
{
    let cs = chars_of(clean_rest);
    let mut out: Vec<char> = Vec::new();
    if simple {
        let mut i: usize = 0;
        while i < cs.len() && ((i == 0 && cs[i] == '-') || ('0' <= cs[i] && cs[i] <= '9') || cs[i]
            == '.')
            invariant
                i <= cs@.len(),
                cs@ == clean_rest@,
                out@ == cs@.subrange(0, i as int),
                temp_len_from(cs@, 0) == temp_len_from(cs@, i as int),
            decreases cs@.len() - i,
        {
            out.push(cs[i]);
            assert(cs@.subrange(0, i + 1) =~= cs@.subrange(0, i as int).push(cs@[i as int]));
            i = i + 1;
        }
        if !(out.len() > 0 && out[0] == '-') {
            out.push('\u{2103}');
        }
    } else {
        out.push(' ');
        let mut i: usize = 0;
        while i < cs.len()
            invariant
                i <= cs@.len(),
                out@ == seq![' '] + cs@.subrange(0, i as int),
            decreases cs@.len() - i,
        {
            out.push(cs[i]);
            assert(cs@.subrange(0, i + 1) =~= cs@.subrange(0, i as int).push(cs@[i as int]));
            i = i + 1;
        }
        assert(cs@.subrange(0, cs@.len() as int) =~= cs@);
    }
    string_of(&out)
}

/// The weather text split into its icon and its temperature part; `None`
/// when it has no space, in which case it is shown as it is.
pub fn weather_parts(full_text: &str, simple: bool) -> (r: Option<(String, String)>)
    ensures
        r is None <==> !full_text@.contains(' '),
        r matches Some(p) ==> p.0@.len() < full_text@.len() && full_text@[p.0@.len() as int]
            == ' ' && !p.0@.contains(' ') && p.0@ == full_text@.subrange(0, p.0@.len() as int)
            && p.1@ == temp_part_text(
            trimmed(full_text@.subrange(p.0@.len() as int + 1, full_text@.len() as int)),
            simple,
        ),
{
    match split_icon(full_text) {
        Some((icon, rest)) => {
            let clean = trim_text(rest.as_str());
            let part = weather_temp_part(clean, simple);
            assert(full_text@ == icon@ + seq![' '] + rest@);
            assert(full_text@.subrange(icon@.len() as int + 1, full_text@.len() as int) =~= rest@);
            assert(full_text@.subrange(0, icon@.len() as int) =~= icon@);
            assert(full_text@[icon@.len() as int] == ' ');
            Some((icon, part))
        },
        None => None,
    }
}

/// The first `n` characters of `s`, or all of it when it is shorter.
pub open spec fn take_chars(s: Seq<char>, n: nat) -> Seq<char> {
    if n < s.len() {
        s.subrange(0, n as int)
    } else {
        s
    }
}

/// `prefix` followed by at most `max_len` characters of the already trimmed
/// reply `clean`.
pub fn clip_text(prefix: &str, clean: &str, max_len: usize) -> (r: String)
    ensures
        r@ == prefix@ + take_chars(clean@, max_len as nat),
{
    let mut out = chars_of(prefix);
    let cs = chars_of(clean);
    let mut i: usize = 0;
    while i < cs.len() && i < max_len
        invariant
            i <= cs@.len(),
            i <= max_len,
            out@ == prefix@ + cs@.subrange(0, i as int),
        decreases cs@.len() - i,
    {
        out.push(cs[i]);
        assert(cs@.subrange(0, i + 1) =~= cs@.subrange(0, i as int).push(cs@[i as int]));
        i = i + 1;
    }
    assert(cs@.subrange(0, i as int) =~= take_chars(cs@, max_len as nat));
    string_of(&out)
}

/// The text of a fetched reply: `prefix` and at most `max_len` characters of
/// the reply without its surrounding white space.
pub fn http_text(prefix: &str, body: &str, max_len: usize) -> (r: String)
    ensures
        r@ == prefix@ + take_chars(trimmed(body@), max_len as nat),
{
    clip_text(prefix, trim_text(body), max_len)
}

/// A text that holds `Err` marks a failed fetch.
pub open spec fn is_error_text(s: Seq<char>) -> bool {
    contains_text(s, seq!['E', 'r', 'r'])
}

/// A text that holds `Wait` marks a fetch that did not get through.
pub open spec fn is_wait_text(s: Seq<char>) -> bool {
    contains_text(s, seq!['W', 'a', 'i', 't'])
}

/// Whether a weather text may be kept in the cache: it marks no failure.
pub fn weather_cacheable(result: &str) -> (r: bool)
    ensures
        r == (!is_error_text(result@) && !is_wait_text(result@)),
{
    let cs = chars_of(result);
    !contains(&cs, &vec!['E', 'r', 'r']) && !contains(
        &cs,
        &vec!['W', 'a', 'i', 't'],
    )
}

/// Whether the cached weather text is shown again instead of fetching: it
/// is under half an hour old and marks no failure.
pub fn weather_cache_usable(elapsed_secs: u64, cached: &str) -> (r: bool)
    ensures
        r == (elapsed_secs < 1800 && !is_error_text(cached@) && !is_wait_text(cached@)),
{
    elapsed_secs < 1800 && weather_cacheable(cached)
}

/// Whether an address text may be kept in the cache: it marks no failure.
pub fn ip_cacheable(result: &str) -> (r: bool)
    ensures
        r == !is_error_text(result@),
{
    !contains(&chars_of(result), &vec!['E', 'r', 'r'])
}

/// Whether the cached address text is shown again instead of fetching: it
/// is under an hour old and marks no failure.
pub fn ip_cache_usable(elapsed_secs: u64, cached: &str) -> (r: bool)
    ensures
        r == (elapsed_secs < 3600 && !is_error_text(cached@)),
{
    elapsed_secs < 3600 && ip_cacheable(cached)
}

/// A dotted quad of one to three digits each, between word boundaries.
pub const IPV4_PATTERN: &'static str = "\\b(?:\\d{1,3}\\.){3}\\d{1,3}\\b";

/// The first match that the `regex` crate finds of a pattern in a text.
pub uninterp spec fn first_match_of(pattern: Seq<char>, hay: Seq<char>) -> Option<Seq<char>>;

/// Relies on `regex::Regex::new` and `Regex::find`: the text of the first
/// match of `pattern` in `hay`, which is a part of `hay`; none when nothing
/// matches or the pattern does not compile. It depends on the two texts alone.
#[verifier::external_body]
fn first_match(pattern: &str, hay: &str) -> (r: Option<String>)
    ensures
        r is Some <==> first_match_of(pattern@, hay@) is Some,
        r matches Some(m) ==> first_match_of(pattern@, hay@) == Some(m@) && contains_text(
            hay@,
            m@,
        ),
{
    match regex::Regex::new(pattern) {
        Ok(re) => re.find(hay).map(|m| m.as_str().to_string()),
        Err(_) => None,
    }
}

/// The address text: `IP:` and the address found, or `IP:Err`.
pub open spec fn ip_text(found: Option<Seq<char>>) -> Seq<char> {
    match found {
        Some(m) => seq!['I', 'P', ':'] + m,
        None => seq!['I', 'P', ':', 'E', 'r', 'r'],
    }
}

/// The address text for what was found in a reply.
pub fn ip_text_of(found: Option<&str>) -> (r: String)
    ensures
        r@ == ip_text(
            match found {
                Some(m) => Some(m@),
                None => None,
            },
        ),
{
    let mut out: Vec<char> = Vec::new();
    out.push('I');
    out.push('P');
    out.push(':');
    match found {
        Some(m) => {
            let cs = chars_of(m);
            let mut i: usize = 0;
            while i < cs.len()
                invariant
                    i <= cs@.len(),
                    out@ == seq!['I', 'P', ':'] + cs@.subrange(0, i as int),
                decreases cs@.len() - i,
            {
                out.push(cs[i]);
                assert(cs@.subrange(0, i + 1) =~= cs@.subrange(0, i as int).push(cs@[i as int]));
                i = i + 1;
            }
            assert(cs@.subrange(0, cs@.len() as int) =~= cs@);
        },
        None => {
            out.push('E');
            out.push('r');
            out.push('r');
        },
    }
    assert(out@ =~= ip_text(
        match found {
            Some(m) => Some(m@),
            None => None,
        },
    ));
    string_of(&out)
}

/// The address text of a reply of the address service: the first dotted
/// quad in it.
pub fn public_ip_text(body: &str) -> (r: String)
    ensures
        r@ == ip_text(first_match_of(IPV4_PATTERN@, body@)),
{
    match first_match(IPV4_PATTERN, body) {
        Some(m) => ip_text_of(Some(m.as_str())),
        None => ip_text_of(None),
    }
}

/// A weather service.
#[derive(Clone, Copy, Debug, PartialEq, Eq, Structural)]
pub enum WeatherSource {
    Seniverse,
    OpenMeteo,
    Uapis,
    Wttr,
}

/// The service that a name selects; any other name selects wttr.
pub open spec fn weather_source_of(s: Seq<char>) -> WeatherSource {
    if s == seq!['s', 'e', 'n', 'i', 'v', 'e', 'r', 's', 'e'] {
        WeatherSource::Seniverse
    } else if s == seq!['o', 'p', 'e', 'n', 'm', 'e', 't', 'e', 'o'] {
        WeatherSource::OpenMeteo
    } else if s == seq!['u', 'a', 'p', 'i', 's'] {
        WeatherSource::Uapis
    } else {
        WeatherSource::Wttr
    }
}

impl WeatherSource {
    /// The service named `source`.
    pub fn parse(source: &str) -> (r: WeatherSource)
        ensures
            r == weather_source_of(source@),
    {
        let s = chars_of(source);
        if same_text(&s, &vec!['s', 'e', 'n', 'i', 'v', 'e', 'r', 's', 'e']) {
            WeatherSource::Seniverse
        } else if same_text(&s, &vec!['o', 'p', 'e', 'n', 'm', 'e', 't', 'e', 'o']) {
            WeatherSource::OpenMeteo
        } else if same_text(&s, &vec!['u', 'a', 'p', 'i', 's']) {
            WeatherSource::Uapis
        } else {
            WeatherSource::Wttr
        }
    }
}

} // verus!
