//! Parsers of procfs and sysfs text: CPU idle time, memory, swap
//! activity, mount points, block-device statistics and thermal zones.

use vstd::prelude::*;
use crate::text::{
    has_prefix, lines, parse_u64, parse_u64_spec, split_lines, split_words, starts_with, str_eq,
    strings_view, trim_end, trim_end_str, words,
};

verus! {

/// A decimal field, 0 where it does not read as a number.
pub open spec fn num_or_zero(s: Seq<char>) -> u64 {
    match parse_u64_spec(s) {
        Some(v) => v,
        None => 0,
    }
}

fn parse_or_zero(s: &str) -> (r: u64)
    ensures
        r == num_or_zero(s@),
{
    match parse_u64(s) {
        Some(v) => v,
        None => 0,
    }
}

/// `a * b`, or `u64::MAX` where the product does not fit.
pub open spec fn sat_mul(a: u64, b: u64) -> u64 {
    if a * b > u64::MAX {
        u64::MAX
    } else {
        (a * b) as u64
    }
}

pub fn saturating_mul(a: u64, b: u64) -> (r: u64)
    ensures
        r == sat_mul(a, b),
{
    if b != 0 && a > u64::MAX / b {
        proof {
            assert(a * b > u64::MAX) by (nonlinear_arith)
                requires
                    b != 0,
                    a > u64::MAX / b,
            ;
        }
        u64::MAX
    } else {
        proof {
            assert(a * b <= u64::MAX) by (nonlinear_arith)
                requires
                    b == 0 || a <= u64::MAX / b,
            ;
        }
        a * b
    }
}

/// Idle time of the CPUs, in clock ticks.
pub struct Stat {
    pub cpu: String,
    pub idle_ticks: u64,
}

/// A line of the scheduler statistics: `cpu user nice system idle ...`.
pub open spec fn stat_of_words(w: Seq<Seq<char>>) -> Option<(Seq<char>, u64)> {
    if w.len() < 5 {
        None
    } else {
        Some((w[0], num_or_zero(w[4])))
    }
}

pub fn parse_stat_line(line: &str) -> (r: Option<Stat>)
    ensures
        match r {
            Some(s) => stat_of_words(words(line@)) == Some((s.cpu@, s.idle_ticks)),
            None => stat_of_words(words(line@)) is None,
        },
{
    let cols = split_words(line);
    if cols.len() < 5 {
        return None;
    }
    let idle_ticks = parse_or_zero(cols[4].as_str());
    let cpu = cols[0].clone();
    Some(Stat { cpu, idle_ticks })
}

/// The aggregate line of the scheduler statistics: the first line, whose
/// first word is `cpu` (per-core lines name `cpu0`, `cpu1`, ...).
pub open spec fn aggregate_stat(text: Seq<char>) -> Option<(Seq<char>, u64)> {
    let ls = lines(text);
    if ls.len() > 0 && words(ls[0]).len() > 0 && words(ls[0])[0] == "cpu"@ {
        stat_of_words(words(ls[0]))
    } else {
        None
    }
}

pub fn parse_stat(text: &str) -> (r: Option<Stat>)
    ensures
        match r {
            Some(s) => aggregate_stat(text@) == Some((s.cpu@, s.idle_ticks)),
            None => aggregate_stat(text@) is None,
        },
{
    let ls = split_lines(text);
    if ls.len() == 0 {
        return None;
    }
    let cols = split_words(ls[0].as_str());
    if cols.len() == 0 || !str_eq(cols[0].as_str(), "cpu") {
        return None;
    }
    parse_stat_line(ls[0].as_str())
}

/// Memory sizes, in KiB.
#[derive(Clone, Copy, Debug, PartialEq, Eq, Structural)]
pub struct MemInfo {
    pub mem_total_kb: u64,
    pub mem_avail_kb: u64,
    pub swap_total_kb: u64,
    pub swap_free_kb: u64,
}

pub open spec fn zero_meminfo() -> MemInfo {
    MemInfo { mem_total_kb: 0, mem_avail_kb: 0, swap_total_kb: 0, swap_free_kb: 0 }
}

/// State after the first `i` lines of a `key: value [unit]` memory file:
/// the sizes read and whether the last tracked key (`SwapFree:`) was
/// seen; `None` once a line with fewer than two words is met.
pub open spec fn meminfo_scan(ls: Seq<Seq<char>>, i: int) -> Option<(MemInfo, bool)>
    decreases i,
{
    if i <= 0 {
        Some((zero_meminfo(), false))
    } else {
        match meminfo_scan(ls, i - 1) {
            None => None,
            Some((m, true)) => Some((m, true)),
            Some((m, false)) => {
                let w = words(ls[i - 1]);
                if w.len() < 2 {
                    None
                } else {
                    let v = num_or_zero(w[1]);
                    if w[0] == "MemTotal:"@ {
                        Some((MemInfo { mem_total_kb: v, ..m }, false))
                    } else if w[0] == "MemAvailable:"@ {
                        Some((MemInfo { mem_avail_kb: v, ..m }, false))
                    } else if w[0] == "SwapTotal:"@ {
                        Some((MemInfo { swap_total_kb: v, ..m }, false))
                    } else if w[0] == "SwapFree:"@ {
                        Some((MemInfo { swap_free_kb: v, ..m }, true))
                    } else {
                        Some((m, false))
                    }
                }
            },
        }
    }
}

pub open spec fn meminfo_of(text: Seq<char>) -> Option<MemInfo> {
    let ls = lines(text);
    match meminfo_scan(ls, ls.len() as int) {
        Some((m, _)) => Some(m),
        None => None,
    }
}

proof fn lemma_meminfo_done(ls: Seq<Seq<char>>, i: int, j: int)
    requires
        0 <= i <= j,
        meminfo_scan(ls, i) matches Some((_, true)),
    ensures
        meminfo_scan(ls, j) == meminfo_scan(ls, i),
    decreases j - i,
{
    if j > i {
        lemma_meminfo_done(ls, i, j - 1);
    }
}

/// Reads the memory file; `None` where a line has fewer than two words.
pub fn parse_meminfo(text: &str) -> (r: Option<MemInfo>)
    ensures
        r == meminfo_of(text@),
{
    let ls = split_lines(text);
    let ghost lv = strings_view(ls@);
    let mut m = MemInfo { mem_total_kb: 0, mem_avail_kb: 0, swap_total_kb: 0, swap_free_kb: 0 };
    let mut i: usize = 0;
    while i < ls.len()
        invariant
            lv == strings_view(ls@),
            lv == lines(text@),
            i <= ls@.len(),
            meminfo_scan(lv, i as int) == Some((m, false)),
        decreases ls@.len() - i,
    {
        let cols = split_words(ls[i].as_str());
        if cols.len() < 2 {
            proof {
                lemma_meminfo_none(lv, i + 1, lv.len() as int);
            }
            return None;
        }
        let ty = cols[0].as_str();
        let val = parse_or_zero(cols[1].as_str());
        if str_eq(ty, "MemTotal:") {
            m.mem_total_kb = val;
        } else if str_eq(ty, "MemAvailable:") {
            m.mem_avail_kb = val;
        } else if str_eq(ty, "SwapTotal:") {
            m.swap_total_kb = val;
        } else if str_eq(ty, "SwapFree:") {
            m.swap_free_kb = val;
            proof {
                lemma_meminfo_done(lv, i + 1, lv.len() as int);
            }
            return Some(m);
        }
        i = i + 1;
    }
    Some(m)
}

proof fn lemma_meminfo_none(ls: Seq<Seq<char>>, i: int, j: int)
    requires
        0 <= i <= j,
        meminfo_scan(ls, i) is None,
    ensures
        meminfo_scan(ls, j) is None,
    decreases j - i,
{
    if j > i {
        lemma_meminfo_none(ls, i, j - 1);
    }
}

/// Pages swapped in and out since boot.
#[derive(Clone, Copy, Debug, PartialEq, Eq, Structural)]
pub struct VmStat {
    pub pswpin: u64,
    pub pswpout: u64,
}

/// Counts after the first `i` lines of the `key value` VM statistics.
pub open spec fn vmstat_scan(ls: Seq<Seq<char>>, i: int) -> VmStat
    decreases i,
{
    if i <= 0 {
        VmStat { pswpin: 0, pswpout: 0 }
    } else {
        let m = vmstat_scan(ls, i - 1);
        let w = words(ls[i - 1]);
        if w.len() < 2 {
            m
        } else if w[0] == "pswpin"@ {
            VmStat { pswpin: num_or_zero(w[1]), ..m }
        } else if w[0] == "pswpout"@ {
            VmStat { pswpout: num_or_zero(w[1]), ..m }
        } else {
            m
        }
    }
}

pub open spec fn vmstat_of(text: Seq<char>) -> VmStat {
    vmstat_scan(lines(text), lines(text).len() as int)
}

pub fn parse_vmstat(text: &str) -> (r: VmStat)
    ensures
        r == vmstat_of(text@),
{
    let ls = split_lines(text);
    let ghost lv = strings_view(ls@);
    let mut m = VmStat { pswpin: 0, pswpout: 0 };
    let mut i: usize = 0;
    while i < ls.len()
        invariant
            lv == strings_view(ls@),
            lv == lines(text@),
            i <= ls@.len(),
            vmstat_scan(lv, i as int) == m,
        decreases ls@.len() - i,
    {
        let cols = split_words(ls[i].as_str());
        if cols.len() >= 2 {
            let ty = cols[0].as_str();
            if str_eq(ty, "pswpin") {
                m.pswpin = parse_or_zero(cols[1].as_str());
            } else if str_eq(ty, "pswpout") {
                m.pswpout = parse_or_zero(cols[1].as_str());
            }
        }
        i = i + 1;
    }
    m
}

/// A mounted filesystem backed by a device.
pub struct MountEntry {
    pub major_minor: String,
    pub source: String,
    pub mount_point: String,
}

pub ghost struct MountModel {
    pub major_minor: Seq<char>,
    pub source: Seq<char>,
    pub mount_point: Seq<char>,
}

impl View for MountEntry {
    type V = MountModel;

    open spec fn view(&self) -> MountModel {
        MountModel {
            major_minor: self.major_minor@,
            source: self.source@,
            mount_point: self.mount_point@,
        }
    }
}

/// Index of the first `-` separator word at or after index `i`.
pub open spec fn separator_from(w: Seq<Seq<char>>, i: int) -> Option<int>
    decreases w.len() - i,
{
    if i < 0 || i >= w.len() {
        None
    } else if w[i] == "-"@ {
        Some(i)
    } else {
        separator_from(w, i + 1)
    }
}

/// A mountinfo line: six fixed fields (id, parent, major:minor, root,
/// mount point, options), optional fields ended by `-`, then the
/// filesystem type, the source and the superblock options: exactly three
/// fields after the separator, or the line is malformed.
pub open spec fn mount_of_words(w: Seq<Seq<char>>) -> Option<MountModel> {
    match separator_from(w, 6) {
        Some(sep) => if w.len() != sep + 4 {
            None
        } else {
            Some(MountModel { major_minor: w[2], source: w[sep + 2], mount_point: w[4] })
        },
        None => None,
    }
}

/// The mount a line describes, kept only when its source is an absolute
/// path.
pub open spec fn mount_of_line(line: Seq<char>) -> Option<MountModel> {
    match mount_of_words(words(line)) {
        Some(m) => if has_prefix(m.source, "/"@) {
            Some(m)
        } else {
            None
        },
        None => None,
    }
}

pub fn parse_pid_mountinfo_line(line: &str) -> (r: Option<MountEntry>)
    ensures
        match r {
            Some(m) => mount_of_line(line@) == Some(m@),
            None => mount_of_line(line@) is None,
        },
{
    let cols = split_words(line);
    let ghost w = strings_view(cols@);
    let n = cols.len();
    let mut sep: usize = 6;
    while sep < n && !str_eq(cols[sep].as_str(), "-")
        invariant
            n == cols@.len(),
            w == strings_view(cols@),
            6 <= sep,
            separator_from(w, 6) == separator_from(w, sep as int),
        decreases n - sep,
    {
        sep = sep + 1;
    }
    if sep >= n || n - sep != 4 {
        return None;
    }
    if !starts_with(cols[sep + 2].as_str(), "/") {
        return None;
    }
    Some(
        MountEntry {
            major_minor: cols[2].clone(),
            source: cols[sep + 2].clone(),
            mount_point: cols[4].clone(),
        },
    )
}

/// The kept mounts of the first `i` lines, in order.
pub open spec fn mounts_scan(ls: Seq<Seq<char>>, i: int) -> Seq<MountModel>
    decreases i,
{
    if i <= 0 {
        Seq::empty()
    } else {
        match mount_of_line(ls[i - 1]) {
            Some(m) => mounts_scan(ls, i - 1).push(m),
            None => mounts_scan(ls, i - 1),
        }
    }
}

pub open spec fn mounts_of(text: Seq<char>) -> Seq<MountModel> {
    mounts_scan(lines(text), lines(text).len() as int)
}

/// The device-backed mounts of a mountinfo file; malformed lines and
/// sources that are not absolute paths are skipped.
pub fn parse_mountinfo(text: &str) -> (r: Vec<MountEntry>)
    ensures
        r@.map_values(|m: MountEntry| m@) == mounts_of(text@),
{
    let ls = split_lines(text);
    let ghost lv = strings_view(ls@);
    let mut out: Vec<MountEntry> = Vec::new();
    let mut i: usize = 0;
    while i < ls.len()
        invariant
            lv == strings_view(ls@),
            lv == lines(text@),
            i <= ls@.len(),
            out@.map_values(|m: MountEntry| m@) == mounts_scan(lv, i as int),
        decreases ls@.len() - i,
    {
        match parse_pid_mountinfo_line(ls[i].as_str()) {
            Some(m) => {
                let ghost prev = out@;
                out.push(m);
                proof {
                    assert(out@.map_values(|m: MountEntry| m@) =~= prev.map_values(
                        |m: MountEntry| m@,
                    ).push(m@));
                }
            },
            None => {},
        }
        i = i + 1;
    }
    out
}

/// Bytes read from and written to a block device.
#[derive(Clone, Copy, Debug, PartialEq, Eq, Structural)]
pub struct IoStats {
    pub read_bytes: u64,
    pub write_bytes: u64,
}

/// A block-device statistics line: sectors read are field 2, sectors
/// written field 6; a sector is 512 bytes.
pub open spec fn io_stats_of(line: Seq<char>) -> Option<IoStats> {
    let w = words(line);
    if w.len() < 7 {
        None
    } else {
        Some(
            IoStats {
                read_bytes: sat_mul(num_or_zero(w[2]), 512),
                write_bytes: sat_mul(num_or_zero(w[6]), 512),
            },
        )
    }
}

pub fn parse_io_stats_line(line: &str) -> (r: Option<IoStats>)
    ensures
        r == io_stats_of(line@),
{
    let cols = split_words(line);
    if cols.len() < 7 {
        return None;
    }
    let read_bytes = saturating_mul(parse_or_zero(cols[2].as_str()), 512);
    let write_bytes = saturating_mul(parse_or_zero(cols[6].as_str()), 512);
    Some(IoStats { read_bytes, write_bytes })
}

/// A thermal zone: its type and temperature in milli-degrees Celsius.
pub struct ThermalZone {
    pub name: String,
    pub temp: u64,
}

/// Whether a directory of the thermal class is a zone.
pub fn is_thermal_zone_dir(name: &str) -> (r: bool)
    ensures
        r == has_prefix(name@, "thermal_zone"@),
{
    starts_with(name, "thermal_zone")
}

/// A zone from the contents of its `type` and `temp` files, each without
/// trailing white space; `None` where the temperature is not a number.
pub fn parse_thermal_zone(type_text: &str, temp_text: &str) -> (r: Option<ThermalZone>)
    ensures
        r is Some <==> parse_u64_spec(trim_end(temp_text@)) is Some,
        r matches Some(z) ==> z.name@ == trim_end(type_text@) && Some(z.temp) == parse_u64_spec(
            trim_end(temp_text@),
        ),
{
    let name = trim_end_str(type_text);
    let t = trim_end_str(temp_text);
    match parse_u64(t.as_str()) {
        Some(temp) => Some(ThermalZone { name, temp }),
        None => None,
    }
}

/// A mountinfo line whose source is not an absolute path (a virtual
/// filesystem), or that is malformed, gives no mount; a well-formed line
/// whose source is absolute gives exactly one.
pub proof fn lemma_mount_line(line: Seq<char>)
    ensures
        match mount_of_words(words(line)) {
            Some(m) => if has_prefix(m.source, "/"@) {
                mounts_scan(seq![line], 1) == seq![m]
            } else {
                mounts_scan(seq![line], 1).len() == 0
            },
            None => mounts_scan(seq![line], 1).len() == 0,
        },
{
    let ls = seq![line];
    assert(ls[0] == line);
    assert(mounts_scan(ls, 0) =~= Seq::<MountModel>::empty());
    if let Some(m) = mount_of_words(words(line)) {
        if has_prefix(m.source, "/"@) {
            assert(mounts_scan(ls, 1) =~= seq![m]);
        }
    }
}

/// A rate the system reports (clock ticks per second, page size): the
/// reported value where it is positive, `default` where the query failed
/// or gave a non-positive value.
pub fn rate_or_default(raw: i64, default: u64) -> (r: u64)
    requires
        default > 0,
    ensures
        r == if raw <= 0 { default } else { raw as u64 },
        r > 0,
{
    if raw <= 0 {
        default
    } else {
        raw as u64
    }
}

} // verus!
