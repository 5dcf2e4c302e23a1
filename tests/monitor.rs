use athena_led::glyph::{encode, GlyphTable};
use athena_led::modules::{banner_text, Module};
use athena_led::monitor::{
    blink_time, clip_text, devices_string, get_animated_icon, http_text, ip_cache_usable,
    ip_cacheable, ip_text_of, open_meteo_icon, public_ip_text, seniverse_icon, split_icon,
    uapis_icon, uptime_string, weather_cache_usable, weather_cacheable, weather_parts,
    weather_temp_part, wttr_icon, WeatherSource,
};
use athena_led::procfs::{get_load_string, get_online_devices, read_cpu_stats, read_net_bytes};
use athena_led::schedule::{get_seconds_until_wake, in_sleep_window, is_sleep_time};
use athena_led::text::{contains, str_contains};
use athena_led::traffic::{
    total_rx_string, total_traffic_string, total_tx_string, traffic_total_string,
};

const NET_DEV: &str = "Inter-|   Receive                                                |  Transmit
 face |bytes    packets errs drop fifo frame compressed multicast|bytes    packets errs drop fifo colls carrier compressed
    lo: 1000      10    0    0    0     0          0         0     1000      10    0    0    0     0       0          0
br-lan: 123456789 1000    0    0    0     0          0         0 987654321   2000    0    0    0     0       0          0
  eth0 : 55 1 0 0 0 0 0 0 66 1 0 0 0 0 0 0
";

#[test]
fn net_bytes_of_interface() {
    assert_eq!(read_net_bytes(NET_DEV, "br-lan"), (123456789, 987654321));
    assert_eq!(read_net_bytes(NET_DEV, "lo"), (1000, 1000));
}

#[test]
fn net_bytes_with_detached_colon() {
    assert_eq!(read_net_bytes(NET_DEV, "eth0"), (55, 66));
}

#[test]
fn net_bytes_missing_interface() {
    assert_eq!(read_net_bytes(NET_DEV, "wlan0"), (0, 0));
    assert_eq!(read_net_bytes("", "br-lan"), (0, 0));
}

#[test]
fn net_bytes_bad_counter_reads_zero() {
    let text = "x: abc 1 2 3 4 5 6 7 99\n";
    assert_eq!(read_net_bytes(text, "x"), (0, 99));
}

#[test]
fn cpu_stats_total_and_idle() {
    let text = "cpu  100 20 30 400 5 6 7 0 0 0\ncpu0 1 2 3 4\n";
    assert_eq!(read_cpu_stats(text), (568, 400));
}

#[test]
fn cpu_stats_short_line() {
    assert_eq!(read_cpu_stats("cpu  1 2 3 4\n"), (10, 4));
    assert_eq!(read_cpu_stats("cpu  1 2 3\n"), (0, 0));
    assert_eq!(read_cpu_stats("cpu0 1 2 3 4 5\n"), (0, 0));
    assert_eq!(read_cpu_stats(""), (0, 0));
}

#[test]
fn cpu_stats_total_wraps() {
    let text = format!("cpu  {} 2 0 0\n", u64::MAX);
    assert_eq!(read_cpu_stats(&text), (1, 0));
}

#[test]
fn load_first_word() {
    assert_eq!(get_load_string("0.42 0.30 0.20 1/100 1234\n"), "L:0.42");
    assert_eq!(get_load_string("  \n"), "L:Err");
}

#[test]
fn online_devices_count_excludes_header() {
    let text = "IP address HW type Flags HW address Mask Device\n10.0.0.2 0x1 0x2 aa:bb br-lan\n10.0.0.3 0x1 0x2 cc:dd br-lan\n";
    assert_eq!(get_online_devices(text), "Dev:2");
    assert_eq!(get_online_devices("header only\n"), "Dev:0");
    assert_eq!(devices_string(0), "Dev:0");
    assert_eq!(devices_string(11), "Dev:10");
}

#[test]
fn uptime_forms() {
    assert_eq!(uptime_string(0), "Up:0m");
    assert_eq!(uptime_string(59 * 60 + 59), "Up:59m");
    assert_eq!(uptime_string(3 * 3600 + 7 * 60), "Up:3h7m");
    assert_eq!(uptime_string(2 * 86400 + 5 * 3600 + 30 * 60), "Up:2d5h");
}

#[test]
fn animated_icons() {
    assert_eq!(get_animated_icon("\u{2600}", true), "\u{2600}");
    assert_eq!(get_animated_icon("\u{2600}", false), "\u{263c}");
    assert_eq!(get_animated_icon("\u{2602}", false), "\u{2614}");
    assert_eq!(get_animated_icon("\u{2601}", false), "\u{1f325}");
    assert_eq!(get_animated_icon("\u{2744}", false), "\u{2745}");
    assert_eq!(get_animated_icon("\u{26a1}", false), "\u{2607}");
    assert_eq!(get_animated_icon("\u{1f32b}", false), "\u{1f32b}");
    assert_eq!(get_animated_icon("W:Err", false), "W:Err");
}

#[test]
fn blink_hides_colon() {
    assert_eq!(blink_time("12:34"), "12;34");
    assert_eq!(blink_time("1234"), "1234");
}

#[test]
fn seniverse_codes() {
    assert_eq!(seniverse_icon(0), '\u{2600}');
    assert_eq!(seniverse_icon(4), '\u{2601}');
    assert_eq!(seniverse_icon(13), '\u{2602}');
    assert_eq!(seniverse_icon(25), '\u{2744}');
    assert_eq!(seniverse_icon(31), '\u{2601}');
    assert_eq!(seniverse_icon(99), '\u{2600}');
    assert_eq!(seniverse_icon(-1), '\u{2600}');
}

#[test]
fn open_meteo_codes() {
    assert_eq!(open_meteo_icon(0), '\u{2600}');
    assert_eq!(open_meteo_icon(2), '\u{2601}');
    assert_eq!(open_meteo_icon(48), '\u{1f32b}');
    assert_eq!(open_meteo_icon(61), '\u{2602}');
    assert_eq!(open_meteo_icon(81), '\u{2602}');
    assert_eq!(open_meteo_icon(75), '\u{2744}');
    assert_eq!(open_meteo_icon(96), '\u{26a1}');
    assert_eq!(open_meteo_icon(10), '?');
}

#[test]
fn chinese_descriptions() {
    assert_eq!(uapis_icon("\u{5c0f}\u{96e8}"), '\u{2602}');
    assert_eq!(uapis_icon("\u{5927}\u{96ea}"), '\u{2744}');
    assert_eq!(uapis_icon("\u{591a}\u{4e91}"), '\u{2601}');
    assert_eq!(uapis_icon("\u{9634}"), '\u{2601}');
    assert_eq!(uapis_icon("\u{6674}"), '\u{2600}');
}

#[test]
fn english_descriptions_any_case() {
    assert_eq!(wttr_icon("Light RAIN"), '\u{2602}');
    assert_eq!(wttr_icon("Patchy snow"), '\u{2744}');
    assert_eq!(wttr_icon("Thundery outbreaks"), '\u{26a1}');
    assert_eq!(wttr_icon("Partly Cloudy"), '\u{2601}');
    assert_eq!(wttr_icon("Mist"), '\u{1f32b}');
    assert_eq!(wttr_icon("Sunny"), '\u{2600}');
    assert_eq!(wttr_icon("unknown"), '\u{2600}');
}

#[test]
fn split_at_first_space() {
    assert_eq!(
        split_icon("\u{2600} 25\u{2103} 20-30"),
        Some(("\u{2600}".to_string(), "25\u{2103} 20-30".to_string()))
    );
    assert_eq!(split_icon("W:Err(U)"), None);
}

#[test]
fn temp_part_simple_and_full() {
    assert_eq!(weather_temp_part("25\u{2103} 20-30", true), "25\u{2103}");
    assert_eq!(weather_temp_part("-5\u{2103} -8--2", true), "-5");
    assert_eq!(weather_temp_part("26.5\u{2103}", true), "26.5\u{2103}");
    assert_eq!(weather_temp_part("abc", true), "\u{2103}");
    assert_eq!(weather_temp_part("25\u{2103} 20-30", false), " 25\u{2103} 20-30");
}

#[test]
fn weather_parts_trims_rest() {
    assert_eq!(
        weather_parts("\u{2600}   25\u{2103} 20-30  ", true),
        Some(("\u{2600}".to_string(), "25\u{2103}".to_string()))
    );
    assert_eq!(
        weather_parts("\u{2601} 7\u{2103} 3-9", false),
        Some(("\u{2601}".to_string(), " 7\u{2103} 3-9".to_string()))
    );
    assert_eq!(weather_parts("W:NetErr", true), None);
}

#[test]
fn http_text_trims_and_clips() {
    assert_eq!(http_text("", "  hello world \n", 5), "hello");
    assert_eq!(http_text("X:", "\u{4f60}\u{597d}\u{4e16}\u{754c}", 2), "X:\u{4f60}\u{597d}");
    assert_eq!(http_text("P", " ab ", 15), "Pab");
    assert_eq!(clip_text("", "abc", 0), "");
}

#[test]
fn ip_from_reply() {
    assert_eq!(public_ip_text("Your IP is 203.0.113.7\n"), "IP:203.0.113.7");
    assert_eq!(public_ip_text("no address here"), "IP:Err");
    assert_eq!(ip_text_of(Some("1.2.3.4")), "IP:1.2.3.4");
    assert_eq!(ip_text_of(None), "IP:Err");
}

#[test]
fn cache_decisions() {
    assert!(weather_cache_usable(10, "\u{2600} 25\u{2103}"));
    assert!(!weather_cache_usable(1800, "\u{2600} 25\u{2103}"));
    assert!(!weather_cache_usable(10, "W:Err(U)"));
    assert!(!weather_cache_usable(10, "Wait..."));
    assert!(weather_cacheable("\u{2600} 25\u{2103}"));
    assert!(!weather_cacheable("W:NetErr"));
    assert!(ip_cache_usable(3599, "IP:1.2.3.4"));
    assert!(!ip_cache_usable(3600, "IP:1.2.3.4"));
    assert!(!ip_cache_usable(5, "IP:Err"));
    assert!(ip_cacheable("IP:1.2.3.4"));
    assert!(!ip_cacheable("IP:Err"));
}

#[test]
fn substring_search() {
    assert!(contains(&"abcde".chars().collect(), &"cd".chars().collect()));
    assert!(!contains(&"abcde".chars().collect(), &"ce".chars().collect()));
    assert!(contains(&"abc".chars().collect(), &Vec::new()));
    assert!(str_contains("br-lan: 1 2", "br-lan"));
    assert!(!str_contains("lan", "br-lan"));
}

#[test]
fn sleep_window_same_day() {
    assert!(in_sleep_window((12, 0), (14, 0), 12 * 3600));
    assert!(in_sleep_window((12, 0), (14, 0), 13 * 3600 + 59 * 60 + 59));
    assert!(!in_sleep_window((12, 0), (14, 0), 14 * 3600));
    assert!(!in_sleep_window((12, 0), (14, 0), 11 * 3600));
}

#[test]
fn sleep_window_over_midnight() {
    assert!(in_sleep_window((23, 0), (7, 0), 23 * 3600 + 30 * 60));
    assert!(in_sleep_window((23, 0), (7, 0), 3 * 3600));
    assert!(!in_sleep_window((23, 0), (7, 0), 12 * 3600));
    assert!(in_sleep_window((8, 0), (8, 0), 0));
}

#[test]
fn sleep_time_from_texts() {
    assert!(is_sleep_time("23:00", "07:00", 2 * 3600));
    assert!(!is_sleep_time("23:00", "07:00", 12 * 3600));
    assert!(!is_sleep_time("", "07:00", 2 * 3600));
    assert!(!is_sleep_time("23:00", "", 2 * 3600));
    assert!(!is_sleep_time("late", "07:00", 2 * 3600));
    assert!(!is_sleep_time("25:00", "07:00", 2 * 3600));
}

#[test]
fn wake_delay() {
    assert_eq!(get_seconds_until_wake("07:00", 6 * 3600, 0), 3602);
    assert_eq!(get_seconds_until_wake("07:00", 6 * 3600, 500), 3601);
    assert_eq!(get_seconds_until_wake("07:00", 23 * 3600, 0), 8 * 3600 + 2);
    assert_eq!(get_seconds_until_wake("07:00", 7 * 3600, 0), 86400 + 2);
    assert_eq!(get_seconds_until_wake("07:00", 7 * 3600 - 1, 1), 60);
    assert_eq!(get_seconds_until_wake("bad", 0, 0), 60);
}

#[test]
fn traffic_texts() {
    assert_eq!(total_rx_string(5 * 1_073_741_824), "TD:5.00G");
    assert_eq!(total_tx_string(2048), "TU:2K");
    assert_eq!(traffic_total_string(1_048_576, 1_048_576), "T:2.0M");
    assert_eq!(total_traffic_string(1_288_490_189, 500 * 1_048_576), "T:1.2G/500M");
    assert_eq!(total_traffic_string(0, 1_073_741_824), "T:0M/1024M");
}

#[test]
fn module_names() {
    assert_eq!(Module::parse("date"), Some(Module::Date));
    assert_eq!(Module::parse("timeBlink"), Some(Module::TimeBlink));
    assert_eq!(Module::parse("netspeed_down"), Some(Module::NetspeedDown));
    assert_eq!(Module::parse("http_custom"), Some(Module::HttpCustom));
    assert_eq!(Module::parse("stock"), Some(Module::Stock));
    assert_eq!(Module::parse("Date"), None);
    assert_eq!(Module::parse(""), None);
}

#[test]
fn module_icon_flags() {
    assert_eq!(Module::Time.icon_flags(), 1);
    assert_eq!(Module::TimeBlink.icon_flags(), 1);
    assert_eq!(Module::NetspeedDown.icon_flags(), 8);
    assert_eq!(Module::TrafficDown.icon_flags(), 8);
    assert_eq!(Module::NetspeedUp.icon_flags(), 4);
    assert_eq!(Module::TrafficUp.icon_flags(), 4);
    assert_eq!(Module::Weather.icon_flags(), 0);
}

#[test]
fn banner_default() {
    assert_eq!(banner_text(""), "Welcome");
    assert_eq!(banner_text("Hi"), "Hi");
}

#[test]
fn weather_sources() {
    assert_eq!(WeatherSource::parse("seniverse"), WeatherSource::Seniverse);
    assert_eq!(WeatherSource::parse("openmeteo"), WeatherSource::OpenMeteo);
    assert_eq!(WeatherSource::parse("uapis"), WeatherSource::Uapis);
    assert_eq!(WeatherSource::parse("wttr"), WeatherSource::Wttr);
    assert_eq!(WeatherSource::parse("other"), WeatherSource::Wttr);
}

#[test]
fn glyph_text_parses() {
    let t = GlyphTable::parse("A 30 5 5 30\n\n1 18 31 16\n\u{2103} 3 3 14\n").unwrap();
    assert_eq!(t.get('A'), Some(&vec![30, 5, 5, 30]));
    assert_eq!(t.get('1'), Some(&vec![18, 31, 16]));
    assert_eq!(t.get('\u{2103}'), Some(&vec![3, 3, 14]));
    assert_eq!(encode(&t, b"a1"), vec![30, 5, 5, 30, 0, 18, 31, 16, 0]);
}

#[test]
fn glyph_text_later_line_wins() {
    let t = GlyphTable::parse("A 1\nA 2 3\n").unwrap();
    assert_eq!(t.get('A'), Some(&vec![2, 3]));
}

#[test]
fn glyph_text_rejects_malformed() {
    assert!(GlyphTable::parse("AB 1 2\n").is_none());
    assert!(GlyphTable::parse("A 256\n").is_none());
    assert!(GlyphTable::parse("A 1 x\n").is_none());
    assert!(GlyphTable::parse("").is_some());
}

#[test]
fn glyph_text_number_forms() {
    let t = GlyphTable::parse("A +7 007\n").unwrap();
    assert_eq!(t.get('A'), Some(&vec![7, 7]));
    assert!(GlyphTable::parse("A -1\n").is_none());
    assert!(GlyphTable::parse("A +\n").is_none());
}

#[test]
fn counters_at_the_u64_limit() {
    let text = "x: 18446744073709551615 1 2 3 4 5 6 7 18446744073709551616\n";
    assert_eq!(read_net_bytes(text, "x"), (u64::MAX, 0));
    assert_eq!(read_net_bytes("x: 1a 1 2 3 4 5 6 7 +12\n", "x"), (0, 12));
}
