use home_router_exporter::procfs::{
    is_thermal_zone_dir, parse_io_stats_line, parse_meminfo, parse_mountinfo,
    parse_pid_mountinfo_line, parse_stat, parse_stat_line, parse_thermal_zone, parse_vmstat,
    rate_or_default, saturating_mul,
};
use home_router_exporter::text::{parse_u64, split_lines, split_words, trim_end_str};

#[test]
fn words_and_lines() {
    assert_eq!(split_words("  a\tbb  c \n"), vec!["a", "bb", "c"]);
    assert_eq!(split_words("   ").len(), 0);
    assert_eq!(split_lines("a\r\nb\n\nc\r"), vec!["a", "b", "", "c\r"]);
    assert_eq!(split_lines("x\n"), vec!["x"]);
    assert_eq!(split_lines("").len(), 0);
}

#[test]
fn decimal_numbers() {
    assert_eq!(parse_u64("42"), Some(42));
    assert_eq!(parse_u64("+7"), Some(7));
    assert_eq!(parse_u64("18446744073709551615"), Some(u64::MAX));
    assert_eq!(parse_u64("18446744073709551616"), None);
    assert_eq!(parse_u64(""), None);
    assert_eq!(parse_u64("+"), None);
    assert_eq!(parse_u64("-1"), None);
    assert_eq!(parse_u64("12a"), None);
    assert_eq!(trim_end_str("45000\n \u{3000}"), "45000");
}

#[test]
fn aggregate_cpu_line() {
    let text = "cpu  10 20 30 4500 5\ncpu0 1 2 3 400 5\nintr 1\n";
    let s = parse_stat(text).unwrap();
    assert_eq!(s.cpu, "cpu");
    assert_eq!(s.idle_ticks, 4500);
    assert!(parse_stat("cpu0 1 2 3 4\n").is_none());
    assert!(parse_stat("").is_none());
    let l = parse_stat_line("cpu1 1 2 3 x").unwrap();
    assert_eq!(l.idle_ticks, 0);
    assert!(parse_stat_line("cpu 1 2 3").is_none());
}

#[test]
fn memory_file() {
    let text = "MemTotal:       16000 kB\nMemFree: 1 kB\nMemAvailable:   8000 kB\nSwapTotal: 2000 kB\nSwapFree: 1500 kB\nbad\n";
    let m = parse_meminfo(text).unwrap();
    assert_eq!((m.mem_total_kb, m.mem_avail_kb, m.swap_total_kb, m.swap_free_kb), (16000, 8000, 2000, 1500));
    assert!(parse_meminfo("MemTotal: 1 kB\nbad\nSwapFree: 1 kB\n").is_none());
    let empty = parse_meminfo("").unwrap();
    assert_eq!(empty.mem_total_kb, 0);
}

#[test]
fn vm_statistics() {
    let v = parse_vmstat("pgpgin 5\npswpin 12\npswpout 34\n");
    assert_eq!((v.pswpin, v.pswpout), (12, 34));
    assert_eq!(saturating_mul(12, 4096), 49152);
    assert_eq!(saturating_mul(u64::MAX, 2), u64::MAX);
}

#[test]
fn mount_filtering() {
    let good = "36 35 98:0 /mnt1 /mnt/parent rw,noatime master:1 - ext3 /dev/root rw,errors=continue";
    let m = parse_pid_mountinfo_line(good).unwrap();
    assert_eq!((m.major_minor.as_str(), m.source.as_str(), m.mount_point.as_str()), ("98:0", "/dev/root", "/mnt/parent"));
    let virt = "22 1 0:21 / /proc rw,nosuid - proc proc rw";
    assert!(parse_pid_mountinfo_line(virt).is_none());
    assert!(parse_pid_mountinfo_line("1 2 3 4 5 6 7 8").is_none());
    assert!(parse_pid_mountinfo_line("1 2 3").is_none());
    assert!(parse_pid_mountinfo_line("36 35 98:0 / /m rw - ext4").is_none());
    assert!(parse_pid_mountinfo_line("36 35 98:0 / /m rw - ext4 /dev/sda1").is_none());
    assert!(parse_pid_mountinfo_line("36 35 98:0 / /m rw - ext4 /dev/sda1 rw extra").is_none());
    assert!(parse_pid_mountinfo_line("36 35 98:0 / /m rw - ext4 /dev/sda1 rw").is_some());
    let text = format!("{}\n{}\n", virt, good);
    let all = parse_mountinfo(&text);
    assert_eq!(all.len(), 1);
    assert_eq!(all[0].mount_point, "/mnt/parent");
}

#[test]
fn block_statistics() {
    let s = parse_io_stats_line("  100 0 2048 10 50 0 4096 20 0 30 30").unwrap();
    assert_eq!((s.read_bytes, s.write_bytes), (2048 * 512, 4096 * 512));
    assert!(parse_io_stats_line("1 2 3 4 5 6").is_none());
    let s = parse_io_stats_line("1 2 x 4 5 6 7").unwrap();
    assert_eq!(s.read_bytes, 0);
}

#[test]
fn thermal_zones() {
    assert!(is_thermal_zone_dir("thermal_zone0"));
    assert!(!is_thermal_zone_dir("cooling_device0"));
    let z = parse_thermal_zone("x86_pkg_temp\n", "45000\n").unwrap();
    assert_eq!((z.name.as_str(), z.temp), ("x86_pkg_temp", 45000));
    assert!(parse_thermal_zone("cpu\n", "n/a\n").is_none());
}

#[test]
fn reported_rates() {
    assert_eq!(rate_or_default(250, 100), 250);
    assert_eq!(rate_or_default(0, 100), 100);
    assert_eq!(rate_or_default(-1, 4096), 4096);
}
