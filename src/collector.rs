//! The collector: the descriptor table of every metric family, and the
//! rendering of one scrape's gathered values into the exposition document.

use vstd::prelude::*;
use crate::daemon::{FetchError, KeaStats, UnboundStats, after_fetches, lemma_success_then_failures};
use crate::ethtool::LinkSpeed;
use crate::metric::{
    Encoder, Info, RowModel, SampleValue, Type, Unit, dec, family_text, header_text, info_name,
    push_dec, rows_text, sample_text,
};
use crate::nftables::{NftSet, NftSetCounter};
use crate::procfs::{
    IoStats, MemInfo, MountEntry, Stat, ThermalZone, VmStat, sat_mul, saturating_mul,
};
use crate::rtnetlink::{Gateway, Link, gateway_text};
use crate::text::strings_view;

verus! {

/// Prefix of every metric name.
pub const NAMESPACE: &'static str = "homerouter";

pub struct CpuMetrics {
    pub idle: Info,
}

pub struct MemoryMetrics {
    pub size: Info,
    pub available: Info,
    pub swap_size: Info,
    pub swap_free: Info,
    pub swap_in: Info,
    pub swap_out: Info,
}

pub struct FilesystemMetrics {
    pub size: Info,
    pub available: Info,
    pub read: Info,
    pub write: Info,
}

pub struct ThermalMetrics {
    pub temperature: Info,
}

pub struct NetworkMetrics {
    pub link_speed: Info,
    pub link_up: Info,
    pub link_operstate: Info,
    pub link_rx: Info,
    pub link_tx: Info,
    pub route_default: Info,
    pub nft_set_counter: Info,
    pub dhcp_received: Info,
    pub dhcp_sent: Info,
    pub dhcp_addr_fail: Info,
    pub dns_query: Info,
    pub dns_timeout: Info,
}

/// The descriptors of every metric family this exporter writes.
pub struct Metrics {
    pub cpu: CpuMetrics,
    pub mem: MemoryMetrics,
    pub fs: FilesystemMetrics,
    pub thermal: ThermalMetrics,
    pub net: NetworkMetrics,
}

pub open spec fn keys_view(v: Seq<&str>) -> Seq<Seq<char>> {
    v.map_values(|k: &str| k@)
}

/// Whether `info` is the descriptor with these fields.
pub open spec fn described(
    info: Info,
    subsys: Seq<char>,
    name: Seq<char>,
    help: Seq<char>,
    unit: Unit,
    ty: Type,
    keys: Seq<Seq<char>>,
) -> bool {
    &&& info.subsys@ == subsys
    &&& info.name@ == name
    &&& info.help@ == help
    &&& info.unit == unit
    &&& info.ty == ty
    &&& keys_view(info.label_keys@) == keys
}

impl Metrics {
    /// The descriptor table: subsystem, name, help, unit, kind and label keys of each family.
    #[verifier::opaque]
    pub open spec fn table(&self) -> bool {
        &&& described(self.cpu.idle, "cpu"@, "idle"@, "CPU idle time"@, Unit::Seconds, Type::Counter, seq!["cpu"@])
        &&& described(self.mem.size, "memory"@, "size"@, "Total memory size"@, Unit::Bytes, Type::Gauge, Seq::empty())
        &&& described(self.mem.available, "memory"@, "available"@, "Estimated available memory size"@, Unit::Bytes, Type::Gauge, Seq::empty())
        &&& described(self.mem.swap_size, "memory"@, "swap_size"@, "Total swap size"@, Unit::Bytes, Type::Gauge, Seq::empty())
        &&& described(self.mem.swap_free, "memory"@, "swap_free"@, "Free swap size"@, Unit::Bytes, Type::Gauge, Seq::empty())
        &&& described(self.mem.swap_in, "memory"@, "swap_in"@, "Total swapped-in size"@, Unit::Bytes, Type::Counter, Seq::empty())
        &&& described(self.mem.swap_out, "memory"@, "swap_out"@, "Total swapped-out size"@, Unit::Bytes, Type::Counter, Seq::empty())
        &&& described(self.fs.size, "filesystem"@, "size"@, "Total filesystem size"@, Unit::Bytes, Type::Gauge, seq!["device"@, "mountpoint"@])
        &&& described(self.fs.available, "filesystem"@, "available"@, "Available filesystem size"@, Unit::Bytes, Type::Gauge, seq!["device"@, "mountpoint"@])
        &&& described(self.fs.read, "filesystem"@, "read"@, "Total read size"@, Unit::Bytes, Type::Counter, seq!["device"@, "mountpoint"@])
        &&& described(self.fs.write, "filesystem"@, "write"@, "Total write size"@, Unit::Bytes, Type::Counter, seq!["device"@, "mountpoint"@])
        &&& described(self.thermal.temperature, "thermal"@, "temperature"@, "Current temperature"@, Unit::Celsius, Type::Gauge, seq!["device"@])
        &&& described(self.net.link_speed, "network"@, "link_speed"@, "Link speed"@, Unit::Bytes, Type::Gauge, seq!["device"@])
        &&& described(self.net.link_up, "network"@, "link_up"@, "Link administrative state"@, Unit::Unitless, Type::Gauge, seq!["device"@])
        &&& described(self.net.link_operstate, "network"@, "link_operstate"@, "Link operational state"@, Unit::Unitless, Type::Gauge, seq!["device"@])
        &&& described(self.net.link_rx, "network"@, "link_rx"@, "Total rx size"@, Unit::Bytes, Type::Counter, seq!["device"@])
        &&& described(self.net.link_tx, "network"@, "link_tx"@, "Total tx size"@, Unit::Bytes, Type::Counter, seq!["device"@])
        &&& described(self.net.route_default, "network"@, "route_default"@, "Default route"@, Unit::Info, Type::Gauge, seq!["gateway"@])
        &&& described(self.net.nft_set_counter, "network"@, "nft_set_counter"@, "Nftables set counter"@, Unit::Bytes, Type::Counter, seq!["family"@, "table"@, "set"@, "key"@])
        &&& described(self.net.dhcp_received, "network"@, "dhcp_received"@, "DHCP total packet received"@, Unit::Packets, Type::Counter, Seq::empty())
        &&& described(self.net.dhcp_sent, "network"@, "dhcp_sent"@, "DHCP total packet sent"@, Unit::Packets, Type::Counter, Seq::empty())
        &&& described(self.net.dhcp_addr_fail, "network"@, "dhcp_addr_fail"@, "DHCP total failed address allocation"@, Unit::Unitless, Type::Counter, Seq::empty())
        &&& described(self.net.dns_query, "network"@, "dns_query"@, "DNS total query count"@, Unit::Unitless, Type::Counter, Seq::empty())
        &&& described(self.net.dns_timeout, "network"@, "dns_timeout"@, "DNS total query timeout"@, Unit::Unitless, Type::Counter, Seq::empty())
    }

    /// The number of label keys of each family.
    pub open spec fn arities(&self) -> bool {
        &&& self.cpu.idle.label_keys@.len() == 1
        &&& self.mem.size.label_keys@.len() == 0
        &&& self.mem.available.label_keys@.len() == 0
        &&& self.mem.swap_size.label_keys@.len() == 0
        &&& self.mem.swap_free.label_keys@.len() == 0
        &&& self.mem.swap_in.label_keys@.len() == 0
        &&& self.mem.swap_out.label_keys@.len() == 0
        &&& self.fs.size.label_keys@.len() == 2
        &&& self.fs.available.label_keys@.len() == 2
        &&& self.fs.read.label_keys@.len() == 2
        &&& self.fs.write.label_keys@.len() == 2
        &&& self.thermal.temperature.label_keys@.len() == 1
        &&& self.net.link_speed.label_keys@.len() == 1
        &&& self.net.link_up.label_keys@.len() == 1
        &&& self.net.link_operstate.label_keys@.len() == 1
        &&& self.net.link_rx.label_keys@.len() == 1
        &&& self.net.link_tx.label_keys@.len() == 1
        &&& self.net.route_default.label_keys@.len() == 1
        &&& self.net.nft_set_counter.label_keys@.len() == 4
        &&& self.net.dhcp_received.label_keys@.len() == 0
        &&& self.net.dhcp_sent.label_keys@.len() == 0
        &&& self.net.dhcp_addr_fail.label_keys@.len() == 0
        &&& self.net.dns_query.label_keys@.len() == 0
        &&& self.net.dns_timeout.label_keys@.len() == 0
    }

    pub fn new() -> (r: Metrics)
        ensures
            r.table(),
    {
        let cpu = CpuMetrics {
            idle: Info { subsys: "cpu", name: "idle", help: "CPU idle time", unit: Unit::Seconds, ty: Type::Counter, label_keys: vec!["cpu"] },
        };
        let mem = MemoryMetrics {
            size: Info { subsys: "memory", name: "size", help: "Total memory size", unit: Unit::Bytes, ty: Type::Gauge, label_keys: Vec::new() },
            available: Info { subsys: "memory", name: "available", help: "Estimated available memory size", unit: Unit::Bytes, ty: Type::Gauge, label_keys: Vec::new() },
            swap_size: Info { subsys: "memory", name: "swap_size", help: "Total swap size", unit: Unit::Bytes, ty: Type::Gauge, label_keys: Vec::new() },
            swap_free: Info { subsys: "memory", name: "swap_free", help: "Free swap size", unit: Unit::Bytes, ty: Type::Gauge, label_keys: Vec::new() },
            swap_in: Info { subsys: "memory", name: "swap_in", help: "Total swapped-in size", unit: Unit::Bytes, ty: Type::Counter, label_keys: Vec::new() },
            swap_out: Info { subsys: "memory", name: "swap_out", help: "Total swapped-out size", unit: Unit::Bytes, ty: Type::Counter, label_keys: Vec::new() },
        };
        let fs = FilesystemMetrics {
            size: Info { subsys: "filesystem", name: "size", help: "Total filesystem size", unit: Unit::Bytes, ty: Type::Gauge, label_keys: vec!["device", "mountpoint"] },
            available: Info { subsys: "filesystem", name: "available", help: "Available filesystem size", unit: Unit::Bytes, ty: Type::Gauge, label_keys: vec!["device", "mountpoint"] },
            read: Info { subsys: "filesystem", name: "read", help: "Total read size", unit: Unit::Bytes, ty: Type::Counter, label_keys: vec!["device", "mountpoint"] },
            write: Info { subsys: "filesystem", name: "write", help: "Total write size", unit: Unit::Bytes, ty: Type::Counter, label_keys: vec!["device", "mountpoint"] },
        };
        let thermal = ThermalMetrics {
            temperature: Info { subsys: "thermal", name: "temperature", help: "Current temperature", unit: Unit::Celsius, ty: Type::Gauge, label_keys: vec!["device"] },
        };
        let net = NetworkMetrics {
            link_speed: Info { subsys: "network", name: "link_speed", help: "Link speed", unit: Unit::Bytes, ty: Type::Gauge, label_keys: vec!["device"] },
            link_up: Info { subsys: "network", name: "link_up", help: "Link administrative state", unit: Unit::Unitless, ty: Type::Gauge, label_keys: vec!["device"] },
            link_operstate: Info { subsys: "network", name: "link_operstate", help: "Link operational state", unit: Unit::Unitless, ty: Type::Gauge, label_keys: vec!["device"] },
            link_rx: Info { subsys: "network", name: "link_rx", help: "Total rx size", unit: Unit::Bytes, ty: Type::Counter, label_keys: vec!["device"] },
            link_tx: Info { subsys: "network", name: "link_tx", help: "Total tx size", unit: Unit::Bytes, ty: Type::Counter, label_keys: vec!["device"] },
            route_default: Info { subsys: "network", name: "route_default", help: "Default route", unit: Unit::Info, ty: Type::Gauge, label_keys: vec!["gateway"] },
            nft_set_counter: Info { subsys: "network", name: "nft_set_counter", help: "Nftables set counter", unit: Unit::Bytes, ty: Type::Counter, label_keys: vec!["family", "table", "set", "key"] },
            dhcp_received: Info { subsys: "network", name: "dhcp_received", help: "DHCP total packet received", unit: Unit::Packets, ty: Type::Counter, label_keys: Vec::new() },
            dhcp_sent: Info { subsys: "network", name: "dhcp_sent", help: "DHCP total packet sent", unit: Unit::Packets, ty: Type::Counter, label_keys: Vec::new() },
            dhcp_addr_fail: Info { subsys: "network", name: "dhcp_addr_fail", help: "DHCP total failed address allocation", unit: Unit::Unitless, ty: Type::Counter, label_keys: Vec::new() },
            dns_query: Info { subsys: "network", name: "dns_query", help: "DNS total query count", unit: Unit::Unitless, ty: Type::Counter, label_keys: Vec::new() },
            dns_timeout: Info { subsys: "network", name: "dns_timeout", help: "DNS total query timeout", unit: Unit::Unitless, ty: Type::Counter, label_keys: Vec::new() },
        };
        let r = Metrics { cpu, mem, fs, thermal, net };
        proof {
            reveal(Metrics::table);
            assert(keys_view(r.cpu.idle.label_keys@) =~= seq!["cpu"@]);
            assert(keys_view(r.mem.size.label_keys@) =~= Seq::empty());
            assert(keys_view(r.mem.available.label_keys@) =~= Seq::empty());
            assert(keys_view(r.mem.swap_size.label_keys@) =~= Seq::empty());
            assert(keys_view(r.mem.swap_free.label_keys@) =~= Seq::empty());
            assert(keys_view(r.mem.swap_in.label_keys@) =~= Seq::empty());
            assert(keys_view(r.mem.swap_out.label_keys@) =~= Seq::empty());
            assert(keys_view(r.fs.size.label_keys@) =~= seq!["device"@, "mountpoint"@]);
            assert(keys_view(r.fs.available.label_keys@) =~= seq!["device"@, "mountpoint"@]);
            assert(keys_view(r.fs.read.label_keys@) =~= seq!["device"@, "mountpoint"@]);
            assert(keys_view(r.fs.write.label_keys@) =~= seq!["device"@, "mountpoint"@]);
            assert(keys_view(r.thermal.temperature.label_keys@) =~= seq!["device"@]);
            assert(keys_view(r.net.link_speed.label_keys@) =~= seq!["device"@]);
            assert(keys_view(r.net.link_up.label_keys@) =~= seq!["device"@]);
            assert(keys_view(r.net.link_operstate.label_keys@) =~= seq!["device"@]);
            assert(keys_view(r.net.link_rx.label_keys@) =~= seq!["device"@]);
            assert(keys_view(r.net.link_tx.label_keys@) =~= seq!["device"@]);
            assert(keys_view(r.net.route_default.label_keys@) =~= seq!["gateway"@]);
            assert(keys_view(r.net.nft_set_counter.label_keys@) =~= seq!["family"@, "table"@, "set"@, "key"@]);
            assert(keys_view(r.net.dhcp_received.label_keys@) =~= Seq::empty());
            assert(keys_view(r.net.dhcp_sent.label_keys@) =~= Seq::empty());
            assert(keys_view(r.net.dhcp_addr_fail.label_keys@) =~= Seq::empty());
            assert(keys_view(r.net.dns_query.label_keys@) =~= Seq::empty());
            assert(keys_view(r.net.dns_timeout.label_keys@) =~= Seq::empty());
        }
        r
    }
}

/// A sample to be written: label values in key order, and the value.
pub struct Row {
    pub labels: Vec<String>,
    pub value: SampleValue,
}

impl View for Row {
    type V = RowModel;

    open spec fn view(&self) -> RowModel {
        RowModel { labels: strings_view(self.labels@), value: self.value }
    }
}

pub open spec fn rows_view(v: Seq<Row>) -> Seq<RowModel> {
    v.map_values(|r: Row| r@)
}

proof fn lemma_family_push(ns: Seq<char>, info: Info, rows: Seq<RowModel>, i: int, ts: u64)
    requires
        0 <= i < rows.len(),
    ensures
        family_text(ns, info, rows.subrange(0, i + 1), ts) == family_text(
            ns,
            info,
            rows.subrange(0, i),
            ts,
        ) + (if i == 0 {
            header_text(info_name(ns, info), info.help@, info.ty)
        } else {
            Seq::empty()
        }) + sample_text(info_name(ns, info), info.label_keys@, rows[i].labels, rows[i].value, ts),
{
    reveal(family_text);
    let name = info_name(ns, info);
    let pre = rows.subrange(0, i + 1);
    assert(pre.drop_last() =~= rows.subrange(0, i));
    if i == 0 {
        assert(rows.subrange(0, 0) =~= Seq::<RowModel>::empty());
        assert(rows_text(name, info.label_keys@, Seq::<RowModel>::empty(), ts) =~= Seq::<char>::empty());
    }
    assert(family_text(ns, info, pre, ts) =~= family_text(ns, info, rows.subrange(0, i), ts) + (if i
        == 0 {
        header_text(name, info.help@, info.ty)
    } else {
        Seq::empty()
    }) + sample_text(name, info.label_keys@, rows[i].labels, rows[i].value, ts));
}

/// Writes a metric family from its rows.
pub fn write_family(enc: &mut Encoder, info: &Info, rows: &Vec<Row>, timestamp: Option<u64>)
    requires
        forall|i: int| 0 <= i < rows@.len() ==> (#[trigger] rows@[i]).labels@.len() == info.label_keys@.len(),
    ensures
        final(enc).namespace@ == old(enc).namespace@,
        final(enc).buf@ == old(enc).buf@ + family_text(
            old(enc).namespace@,
            *info,
            rows_view(rows@),
            timestamp.unwrap_or(0),
        ),
{
    let ghost ns = enc.namespace@;
    let ghost start = enc.buf@;
    let ghost rv = rows_view(rows@);
    let ghost ts = timestamp.unwrap_or(0);
    let mut menc = enc.with_info(info, timestamp);
    let mut i: usize = 0;
    proof {
        reveal(family_text);
        assert(rv.subrange(0, 0) =~= Seq::<RowModel>::empty());
        assert(start + Seq::<char>::empty() =~= start);
    }
    while i < rows.len()
        invariant
            forall|j: int| 0 <= j < rows@.len() ==> (#[trigger] rows@[j]).labels@.len() == info.label_keys@.len(),
            rv == rows_view(rows@),
            i <= rows@.len(),
            enc.namespace@ == ns,
            enc.buf@ == start + family_text(ns, *info, rv.subrange(0, i as int), ts),
            menc.started == (i > 0),
            menc.name@ == info_name(ns, *info),
            menc.info == info,
            menc.timestamp == ts,
        decreases rows@.len() - i,
    {
        menc.write(enc, &rows[i].labels, rows[i].value);
        proof {
            lemma_family_push(ns, *info, rv, i as int, ts);
            assert(rv[i as int] == rows@[i as int]@);
        }
        i = i + 1;
    }
    proof {
        assert(rv.subrange(0, rows@.len() as int) =~= rv);
    }
}

/// A mounted filesystem with its capacity (in blocks of `frsize` bytes)
/// and the traffic of its device.
pub struct MountSample {
    pub entry: MountEntry,
    pub blocks: u64,
    pub avail_blocks: u64,
    pub frsize: u64,
    pub io: IoStats,
}

/// An exported nftables set with the counters of its elements.
pub struct NftSetSample {
    pub set: NftSet,
    pub counters: Vec<NftSetCounter>,
}

/// Everything one scrape gathered. A family whose collection failed is
/// left empty: it is then absent from the document.
pub struct Scrape {
    pub cpu: Option<Stat>,
    pub user_hz: u64,
    pub mem: MemInfo,
    pub vm: VmStat,
    pub page_size: u64,
    pub mounts: Vec<MountSample>,
    pub thermal: Vec<ThermalZone>,
    pub link_speeds: Vec<LinkSpeed>,
    pub links: Vec<Link>,
    pub routes: Vec<Gateway>,
    pub nft: Vec<NftSetSample>,
    pub dhcp: Option<KeaStats>,
    pub dns: Option<UnboundStats>,
}

impl Scrape {
    /// The clock-tick rate is positive, link speeds fit in 31 bits (as the
    /// decoder gives them), and every gateway has four or sixteen address
    /// bytes.
    pub open spec fn wf(&self) -> bool {
        &&& self.user_hz > 0
        &&& forall|i: int| 0 <= i < self.link_speeds@.len() ==> (#[trigger] self.link_speeds@[i]).speed
            < 0x8000_0000
        &&& forall|i: int| 0 <= i < self.routes@.len() ==> (#[trigger] self.routes@[i]).addr@.len() == 4
            || self.routes@[i].addr@.len() == 16
    }
}

pub open spec fn scalar_text(ns: Seq<char>, info: Info, v: u64, ts: u64) -> Seq<char> {
    family_text(ns, info, seq![RowModel { labels: Seq::empty(), value: SampleValue::Int(v) }], ts)
}

/// Idle seconds of the aggregate CPU line: ticks divided by the tick rate.
pub open spec fn cpu_rows(s: Scrape) -> Seq<RowModel> {
    match s.cpu {
        Some(st) => seq![
            RowModel {
                labels: seq![st.cpu@],
                value: SampleValue::Milli((sat_mul(st.idle_ticks, 1000) / s.user_hz) as u64),
            },
        ],
        None => Seq::empty(),
    }
}

/// Memory sizes are read in KiB; swap activity in pages.
pub open spec fn memory_text(ns: Seq<char>, m: Metrics, s: Scrape) -> Seq<char> {
    scalar_text(ns, m.mem.size, sat_mul(s.mem.mem_total_kb, 1024), 0) + scalar_text(
        ns,
        m.mem.available,
        sat_mul(s.mem.mem_avail_kb, 1024),
        0,
    ) + scalar_text(ns, m.mem.swap_size, sat_mul(s.mem.swap_total_kb, 1024), 0) + scalar_text(
        ns,
        m.mem.swap_free,
        sat_mul(s.mem.swap_free_kb, 1024),
        0,
    ) + scalar_text(ns, m.mem.swap_in, sat_mul(s.vm.pswpin, s.page_size), 0) + scalar_text(
        ns,
        m.mem.swap_out,
        sat_mul(s.vm.pswpout, s.page_size),
        0,
    )
}

/// Value `k` of a mount: 0 size, 1 available, 2 read, 3 written (bytes).
pub open spec fn mount_value(m: MountSample, k: int) -> u64 {
    if k == 0 {
        sat_mul(m.blocks, m.frsize)
    } else if k == 1 {
        sat_mul(m.avail_blocks, m.frsize)
    } else if k == 2 {
        m.io.read_bytes
    } else {
        m.io.write_bytes
    }
}

pub open spec fn mount_rows(v: Seq<MountSample>, k: int) -> Seq<RowModel> {
    Seq::new(
        v.len(),
        |i: int|
            RowModel {
                labels: seq![v[i].entry.source@, v[i].entry.mount_point@],
                value: SampleValue::Int(mount_value(v[i], k)),
            },
    )
}

pub open spec fn thermal_rows(v: Seq<ThermalZone>) -> Seq<RowModel> {
    Seq::new(
        v.len(),
        |i: int| RowModel { labels: seq![v[i].name@], value: SampleValue::Milli(v[i].temp) },
    )
}

/// Link speed in bytes per second: Mbit/s times 10^6 / 8.
pub open spec fn speed_rows(v: Seq<LinkSpeed>) -> Seq<RowModel> {
    Seq::new(
        v.len(),
        |i: int|
            RowModel {
                labels: seq![v[i].name@],
                value: SampleValue::Int((v[i].speed * 125000) as u64),
            },
    )
}

/// Value `k` of a link: 0 administrative state (1 up), 1 operational
/// state, 2 bytes received, 3 bytes sent.
pub open spec fn link_value(l: Link, k: int) -> u64 {
    if k == 0 {
        if l.admin_up { 1 } else { 0 }
    } else if k == 1 {
        l.operstate as u64
    } else if k == 2 {
        l.rx
    } else {
        l.tx
    }
}

pub open spec fn link_rows(v: Seq<Link>, k: int) -> Seq<RowModel> {
    Seq::new(
        v.len(),
        |i: int| RowModel { labels: seq![v[i].name@], value: SampleValue::Int(link_value(v[i], k)) },
    )
}

pub open spec fn route_rows(v: Seq<Gateway>) -> Seq<RowModel> {
    Seq::new(
        v.len(),
        |i: int| RowModel { labels: seq![gateway_text(v[i].addr@)], value: SampleValue::Int(1) },
    )
}

pub open spec fn set_rows(s: NftSetSample) -> Seq<RowModel> {
    Seq::new(
        s.counters@.len(),
        |j: int|
            RowModel {
                labels: seq![
                    dec(s.set.family as nat),
                    s.set.table@,
                    s.set.name@,
                    s.counters@[j].addr@,
                ],
                value: SampleValue::Int(s.counters@[j].bytes),
            },
    )
}

/// The element counters of every set, set by set.
pub open spec fn nft_rows(v: Seq<NftSetSample>) -> Seq<RowModel>
    decreases v.len(),
{
    if v.len() == 0 {
        Seq::empty()
    } else {
        nft_rows(v.drop_last()) + set_rows(v.last())
    }
}

#[verifier::opaque]
pub open spec fn system_text(ns: Seq<char>, m: Metrics, s: Scrape) -> Seq<char> {
    family_text(ns, m.cpu.idle, cpu_rows(s), 0) + memory_text(ns, m, s)
}

#[verifier::opaque]
pub open spec fn storage_text(ns: Seq<char>, m: Metrics, s: Scrape) -> Seq<char> {
    family_text(ns, m.fs.size, mount_rows(s.mounts@, 0), 0) + family_text(
        ns,
        m.fs.available,
        mount_rows(s.mounts@, 1),
        0,
    ) + family_text(ns, m.fs.read, mount_rows(s.mounts@, 2), 0) + family_text(
        ns,
        m.fs.write,
        mount_rows(s.mounts@, 3),
        0,
    ) + family_text(ns, m.thermal.temperature, thermal_rows(s.thermal@), 0)
}

#[verifier::opaque]
pub open spec fn network_text(ns: Seq<char>, m: Metrics, s: Scrape) -> Seq<char> {
    family_text(ns, m.net.link_speed, speed_rows(s.link_speeds@), 0) + family_text(
        ns,
        m.net.link_up,
        link_rows(s.links@, 0),
        0,
    ) + family_text(ns, m.net.link_operstate, link_rows(s.links@, 1), 0) + family_text(
        ns,
        m.net.link_rx,
        link_rows(s.links@, 2),
        0,
    ) + family_text(ns, m.net.link_tx, link_rows(s.links@, 3), 0) + family_text(
        ns,
        m.net.route_default,
        route_rows(s.routes@),
        0,
    ) + family_text(ns, m.net.nft_set_counter, nft_rows(s.nft@), 0)
}

/// Daemon counters carry the time they were captured.
#[verifier::opaque]
pub open spec fn daemon_text(ns: Seq<char>, m: Metrics, s: Scrape) -> Seq<char> {
    (match s.dhcp {
        Some(k) => scalar_text(ns, m.net.dhcp_received, k.pkt4_received, k.timestamp_ms)
            + scalar_text(ns, m.net.dhcp_sent, k.pkt4_sent, k.timestamp_ms) + scalar_text(
            ns,
            m.net.dhcp_addr_fail,
            k.v4_allocation_fail,
            k.timestamp_ms,
        ),
        None => Seq::empty(),
    }) + match s.dns {
        Some(u) => scalar_text(ns, m.net.dns_query, u.total_num_queries, u.timestamp_ms)
            + scalar_text(ns, m.net.dns_timeout, u.total_num_queries_timed_out, u.timestamp_ms),
        None => Seq::empty(),
    }
}

/// The whole document of a scrape, family by family in a fixed order:
/// CPU, memory, filesystems, thermal zones, link speed, link state,
/// default routes, nftables sets, then the daemons.
pub open spec fn document_text(ns: Seq<char>, m: Metrics, s: Scrape) -> Seq<char> {
    system_text(ns, m, s) + storage_text(ns, m, s) + network_text(ns, m, s) + daemon_text(ns, m, s)
}

/// The collector: one descriptor table, shared by every scrape.
pub struct Collector {
    pub metrics: Metrics,
}

impl Collector {
    pub fn new() -> (r: Collector)
        ensures
            r.metrics.table(),
    {
        Collector { metrics: Metrics::new() }
    }

    /// Media type of the document.
    pub fn content_type() -> (r: &'static str)
        ensures
            r@ == "text/plain; version=0.0.4"@,
    {
        "text/plain; version=0.0.4"
    }

    /// Renders the document of one scrape.
    pub fn collect(&self, s: &Scrape) -> (r: String)
        requires
            self.metrics.table(),
            s.wf(),
        ensures
            r@ == document_text(NAMESPACE@, self.metrics, *s),
    {
        proof {
            lemma_table_arities(self.metrics);
        }
        let mut enc = Encoder::new(NAMESPACE);
        let ghost ns = enc.namespace@;
        write_system(&mut enc, &self.metrics, s);
        let ghost a = enc.buf@;
        write_storage(&mut enc, &self.metrics, s);
        let ghost b = enc.buf@;
        write_network(&mut enc, &self.metrics, s);
        let ghost c = enc.buf@;
        write_daemons(&mut enc, &self.metrics, s);
        proof {
            assert(enc.buf@ =~= Seq::<char>::empty() + system_text(ns, self.metrics, *s)
                + storage_text(ns, self.metrics, *s) + network_text(ns, self.metrics, *s)
                + daemon_text(ns, self.metrics, *s));
            assert(enc.buf@ =~= document_text(ns, self.metrics, *s));
        }
        enc.into_string()
    }
}

fn one_label(a: &String) -> (r: Vec<String>)
    ensures
        strings_view(r@) == seq![a@],
        r@.len() == 1,
{
    let mut r: Vec<String> = Vec::new();
    r.push(a.clone());
    proof {
        assert(strings_view(r@) =~= seq![a@]);
    }
    r
}

fn two_labels(a: &String, b: &String) -> (r: Vec<String>)
    ensures
        strings_view(r@) == seq![a@, b@],
        r@.len() == 2,
{
    let mut r: Vec<String> = Vec::new();
    r.push(a.clone());
    r.push(b.clone());
    proof {
        assert(strings_view(r@) =~= seq![a@, b@]);
    }
    r
}

/// Rows whose labels all have `n` values.
pub open spec fn arity(rows: Seq<Row>, n: nat) -> bool {
    forall|i: int| 0 <= i < rows.len() ==> (#[trigger] rows[i]).labels@.len() == n
}

fn build_cpu_rows(s: &Scrape) -> (r: Vec<Row>)
    requires
        s.wf(),
    ensures
        rows_view(r@) == cpu_rows(*s),
        arity(r@, 1),
{
    let mut r: Vec<Row> = Vec::new();
    match &s.cpu {
        Some(st) => {
            let v = saturating_mul(st.idle_ticks, 1000) / s.user_hz;
            let ghost prev = r@;
        r.push(Row { labels: one_label(&st.cpu), value: SampleValue::Milli(v) });
            proof {
                assert(rows_view(r@) =~= cpu_rows(*s));
            }
        },
        None => {
            proof {
                assert(rows_view(r@) =~= cpu_rows(*s));
            }
        },
    }
    r
}

fn mount_value_of(m: &MountSample, k: u8) -> (r: u64)
    ensures
        r == mount_value(*m, k as int),
{
    if k == 0 {
        saturating_mul(m.blocks, m.frsize)
    } else if k == 1 {
        saturating_mul(m.avail_blocks, m.frsize)
    } else if k == 2 {
        m.io.read_bytes
    } else {
        m.io.write_bytes
    }
}

fn build_mount_rows(v: &Vec<MountSample>, k: u8) -> (r: Vec<Row>)
    ensures
        rows_view(r@) == mount_rows(v@, k as int),
        arity(r@, 2),
{
    let ghost want = mount_rows(v@, k as int);
    let mut r: Vec<Row> = Vec::new();
    let mut i: usize = 0;
    while i < v.len()
        invariant
            want == mount_rows(v@, k as int),
            i <= v@.len(),
            rows_view(r@) == want.subrange(0, i as int),
            r@.len() == i,
            arity(r@, 2),
        decreases v@.len() - i,
    {
        let m = &v[i];
        let ghost prev = r@;
        r.push(
            Row {
                labels: two_labels(&m.entry.source, &m.entry.mount_point),
                value: SampleValue::Int(mount_value_of(m, k)),
            },
        );
        proof {
            let k = i as int;
            assert(rows_view(r@) =~= rows_view(prev).push(r@[k]@));
            assert(rows_view(r@) =~= want.subrange(0, i + 1));
        }
        i = i + 1;
    }
    proof {
        assert(want.subrange(0, v@.len() as int) =~= want);
    }
    r
}

fn build_thermal_rows(v: &Vec<ThermalZone>) -> (r: Vec<Row>)
    ensures
        rows_view(r@) == thermal_rows(v@),
        arity(r@, 1),
{
    let ghost want = thermal_rows(v@);
    let mut r: Vec<Row> = Vec::new();
    let mut i: usize = 0;
    while i < v.len()
        invariant
            want == thermal_rows(v@),
            i <= v@.len(),
            rows_view(r@) == want.subrange(0, i as int),
            r@.len() == i,
            arity(r@, 1),
        decreases v@.len() - i,
    {
        let ghost prev = r@;
        r.push(Row { labels: one_label(&v[i].name), value: SampleValue::Milli(v[i].temp) });
        proof {
            let k = i as int;
            assert(rows_view(r@) =~= rows_view(prev).push(r@[k]@));
            assert(rows_view(r@) =~= want.subrange(0, i + 1));
        }
        i = i + 1;
    }
    proof {
        assert(want.subrange(0, v@.len() as int) =~= want);
    }
    r
}

fn build_speed_rows(v: &Vec<LinkSpeed>) -> (r: Vec<Row>)
    requires
        forall|i: int| 0 <= i < v@.len() ==> (#[trigger] v@[i]).speed < 0x8000_0000,
    ensures
        rows_view(r@) == speed_rows(v@),
        arity(r@, 1),
{
    let ghost want = speed_rows(v@);
    let mut r: Vec<Row> = Vec::new();
    let mut i: usize = 0;
    while i < v.len()
        invariant
            forall|j: int| 0 <= j < v@.len() ==> (#[trigger] v@[j]).speed < 0x8000_0000,
            want == speed_rows(v@),
            i <= v@.len(),
            rows_view(r@) == want.subrange(0, i as int),
            r@.len() == i,
            arity(r@, 1),
        decreases v@.len() - i,
    {
        let bps = v[i].speed as u64 * 125000;
        let ghost prev = r@;
        r.push(Row { labels: one_label(&v[i].name), value: SampleValue::Int(bps) });
        proof {
            let k = i as int;
            assert(rows_view(r@) =~= rows_view(prev).push(r@[k]@));
            assert(rows_view(r@) =~= want.subrange(0, i + 1));
        }
        i = i + 1;
    }
    proof {
        assert(want.subrange(0, v@.len() as int) =~= want);
    }
    r
}

fn link_value_of(l: &Link, k: u8) -> (r: u64)
    ensures
        r == link_value(*l, k as int),
{
    if k == 0 {
        if l.admin_up { 1 } else { 0 }
    } else if k == 1 {
        l.operstate as u64
    } else if k == 2 {
        l.rx
    } else {
        l.tx
    }
}

fn build_link_rows(v: &Vec<Link>, k: u8) -> (r: Vec<Row>)
    ensures
        rows_view(r@) == link_rows(v@, k as int),
        arity(r@, 1),
{
    let ghost want = link_rows(v@, k as int);
    let mut r: Vec<Row> = Vec::new();
    let mut i: usize = 0;
    while i < v.len()
        invariant
            want == link_rows(v@, k as int),
            i <= v@.len(),
            rows_view(r@) == want.subrange(0, i as int),
            r@.len() == i,
            arity(r@, 1),
        decreases v@.len() - i,
    {
        let ghost prev = r@;
        r.push(Row { labels: one_label(&v[i].name), value: SampleValue::Int(link_value_of(&v[i], k)) });
        proof {
            let k = i as int;
            assert(rows_view(r@) =~= rows_view(prev).push(r@[k]@));
            assert(rows_view(r@) =~= want.subrange(0, i + 1));
        }
        i = i + 1;
    }
    proof {
        assert(want.subrange(0, v@.len() as int) =~= want);
    }
    r
}

fn build_route_rows(v: &Vec<Gateway>) -> (r: Vec<Row>)
    requires
        forall|i: int| 0 <= i < v@.len() ==> (#[trigger] v@[i]).addr@.len() == 4 || v@[i].addr@.len() == 16,
    ensures
        rows_view(r@) == route_rows(v@),
        arity(r@, 1),
{
    let ghost want = route_rows(v@);
    let mut r: Vec<Row> = Vec::new();
    let mut i: usize = 0;
    while i < v.len()
        invariant
            forall|j: int| 0 <= j < v@.len() ==> (#[trigger] v@[j]).addr@.len() == 4 || v@[j].addr@.len() == 16,
            want == route_rows(v@),
            i <= v@.len(),
            rows_view(r@) == want.subrange(0, i as int),
            r@.len() == i,
            arity(r@, 1),
        decreases v@.len() - i,
    {
        let text = v[i].ip_text();
        let ghost prev = r@;
        r.push(Row { labels: one_label(&text), value: SampleValue::Int(1) });
        proof {
            let k = i as int;
            assert(rows_view(r@) =~= rows_view(prev).push(r@[k]@));
            assert(rows_view(r@) =~= want.subrange(0, i + 1));
        }
        i = i + 1;
    }
    proof {
        assert(want.subrange(0, v@.len() as int) =~= want);
    }
    r
}

fn build_nft_rows(v: &Vec<NftSetSample>) -> (r: Vec<Row>)
    ensures
        rows_view(r@) == nft_rows(v@),
        arity(r@, 4),
{
    let mut r: Vec<Row> = Vec::new();
    let mut i: usize = 0;
    proof {
        assert(v@.subrange(0, 0) =~= Seq::<NftSetSample>::empty());
        assert(rows_view(r@) =~= nft_rows(v@.subrange(0, 0)));
    }
    while i < v.len()
        invariant
            i <= v@.len(),
            rows_view(r@) == nft_rows(v@.subrange(0, i as int)),
            arity(r@, 4),
        decreases v@.len() - i,
    {
        let set = &v[i];
        let ghost want = set_rows(*set);
        let ghost base = rows_view(r@);
        let mut family = String::new();
        push_dec(&mut family, set.set.family as u64);
        let mut j: usize = 0;
        proof {
            assert(base + want.subrange(0, 0) =~= base);
        }
        while j < set.counters.len()
            invariant
                want == set_rows(*set),
                j <= set.counters@.len(),
                family@ == dec(set.set.family as nat),
                rows_view(r@) == base + want.subrange(0, j as int),
                arity(r@, 4),
            decreases set.counters@.len() - j,
        {
            let c = &set.counters[j];
            let mut labels: Vec<String> = Vec::new();
            labels.push(family.clone());
            labels.push(set.set.table.clone());
            labels.push(set.set.name.clone());
            labels.push(c.addr.clone());
            proof {
                assert(strings_view(labels@) =~= seq![
                    dec(set.set.family as nat),
                    set.set.table@,
                    set.set.name@,
                    c.addr@,
                ]);
            }
            let ghost prev = r@;
        r.push(Row { labels, value: SampleValue::Int(c.bytes) });
            proof {
                assert(rows_view(r@) =~= rows_view(prev).push(r@[r@.len() - 1]@));
                assert(rows_view(r@) =~= base + want.subrange(0, j + 1));
            }
            j = j + 1;
        }
        proof {
            let pre = v@.subrange(0, i + 1);
            assert(pre.drop_last() =~= v@.subrange(0, i as int));
            assert(want.subrange(0, set.counters@.len() as int) =~= want);
            assert(rows_view(r@) =~= nft_rows(pre));
        }
        i = i + 1;
    }
    proof {
        assert(v@.subrange(0, v@.len() as int) =~= v@);
    }
    r
}

proof fn lemma_arity(info: Info, keys: Seq<Seq<char>>)
    requires
        keys_view(info.label_keys@) == keys,
    ensures
        info.label_keys@.len() == keys.len(),
{
    assert(keys_view(info.label_keys@).len() == info.label_keys@.len());
}

proof fn lemma_table_arities(m: Metrics)
    requires
        m.table(),
    ensures
        m.arities(),
{
    reveal(Metrics::table);
    lemma_arity(m.cpu.idle, seq!["cpu"@]);
    lemma_arity(m.mem.size, Seq::empty());
    lemma_arity(m.mem.available, Seq::empty());
    lemma_arity(m.mem.swap_size, Seq::empty());
    lemma_arity(m.mem.swap_free, Seq::empty());
    lemma_arity(m.mem.swap_in, Seq::empty());
    lemma_arity(m.mem.swap_out, Seq::empty());
    lemma_arity(m.fs.size, seq!["device"@, "mountpoint"@]);
    lemma_arity(m.fs.available, seq!["device"@, "mountpoint"@]);
    lemma_arity(m.fs.read, seq!["device"@, "mountpoint"@]);
    lemma_arity(m.fs.write, seq!["device"@, "mountpoint"@]);
    lemma_arity(m.thermal.temperature, seq!["device"@]);
    lemma_arity(m.net.link_speed, seq!["device"@]);
    lemma_arity(m.net.link_up, seq!["device"@]);
    lemma_arity(m.net.link_operstate, seq!["device"@]);
    lemma_arity(m.net.link_rx, seq!["device"@]);
    lemma_arity(m.net.link_tx, seq!["device"@]);
    lemma_arity(m.net.route_default, seq!["gateway"@]);
    lemma_arity(m.net.nft_set_counter, seq!["family"@, "table"@, "set"@, "key"@]);
    lemma_arity(m.net.dhcp_received, Seq::empty());
    lemma_arity(m.net.dhcp_sent, Seq::empty());
    lemma_arity(m.net.dhcp_addr_fail, Seq::empty());
    lemma_arity(m.net.dns_query, Seq::empty());
    lemma_arity(m.net.dns_timeout, Seq::empty());
}

fn write_system(enc: &mut Encoder, m: &Metrics, s: &Scrape)
    requires
        m.arities(),
        s.wf(),
    ensures
        final(enc).namespace@ == old(enc).namespace@,
        final(enc).buf@ == old(enc).buf@ + system_text(old(enc).namespace@, *m, *s),
{
    let ghost ns = enc.namespace@;
    let ghost start = enc.buf@;
    let rows = build_cpu_rows(s);
    write_family(enc, &m.cpu.idle, &rows, None);
    let ghost a = enc.buf@;
    enc.write(&m.mem.size, SampleValue::Int(saturating_mul(s.mem.mem_total_kb, 1024)), None);
    enc.write(&m.mem.available, SampleValue::Int(saturating_mul(s.mem.mem_avail_kb, 1024)), None);
    enc.write(&m.mem.swap_size, SampleValue::Int(saturating_mul(s.mem.swap_total_kb, 1024)), None);
    enc.write(&m.mem.swap_free, SampleValue::Int(saturating_mul(s.mem.swap_free_kb, 1024)), None);
    enc.write(&m.mem.swap_in, SampleValue::Int(saturating_mul(s.vm.pswpin, s.page_size)), None);
    enc.write(&m.mem.swap_out, SampleValue::Int(saturating_mul(s.vm.pswpout, s.page_size)), None);
    proof {
        reveal(system_text);
        assert(enc.buf@ =~= start + system_text(ns, *m, *s));
    }
}

fn write_storage(enc: &mut Encoder, m: &Metrics, s: &Scrape)
    requires
        m.arities(),
    ensures
        final(enc).namespace@ == old(enc).namespace@,
        final(enc).buf@ == old(enc).buf@ + storage_text(old(enc).namespace@, *m, *s),
{
    let ghost ns = enc.namespace@;
    let ghost start = enc.buf@;
    let rows = build_mount_rows(&s.mounts, 0);
    write_family(enc, &m.fs.size, &rows, None);
    let rows = build_mount_rows(&s.mounts, 1);
    write_family(enc, &m.fs.available, &rows, None);
    let rows = build_mount_rows(&s.mounts, 2);
    write_family(enc, &m.fs.read, &rows, None);
    let rows = build_mount_rows(&s.mounts, 3);
    write_family(enc, &m.fs.write, &rows, None);
    let rows = build_thermal_rows(&s.thermal);
    write_family(enc, &m.thermal.temperature, &rows, None);
    proof {
        reveal(storage_text);
        assert(enc.buf@ =~= start + storage_text(ns, *m, *s));
    }
}

fn write_network(enc: &mut Encoder, m: &Metrics, s: &Scrape)
    requires
        m.arities(),
        s.wf(),
        forall|i: int| 0 <= i < s.link_speeds@.len() ==> (#[trigger] s.link_speeds@[i]).speed < 0x8000_0000,
    ensures
        final(enc).namespace@ == old(enc).namespace@,
        final(enc).buf@ == old(enc).buf@ + network_text(old(enc).namespace@, *m, *s),
{
    let ghost ns = enc.namespace@;
    let ghost start = enc.buf@;
    let rows = build_speed_rows(&s.link_speeds);
    write_family(enc, &m.net.link_speed, &rows, None);
    let rows = build_link_rows(&s.links, 0);
    write_family(enc, &m.net.link_up, &rows, None);
    let rows = build_link_rows(&s.links, 1);
    write_family(enc, &m.net.link_operstate, &rows, None);
    let rows = build_link_rows(&s.links, 2);
    write_family(enc, &m.net.link_rx, &rows, None);
    let rows = build_link_rows(&s.links, 3);
    write_family(enc, &m.net.link_tx, &rows, None);
    let rows = build_route_rows(&s.routes);
    write_family(enc, &m.net.route_default, &rows, None);
    let rows = build_nft_rows(&s.nft);
    write_family(enc, &m.net.nft_set_counter, &rows, None);
    proof {
        reveal(network_text);
        assert(enc.buf@ =~= start + network_text(ns, *m, *s));
    }
}

fn write_daemons(enc: &mut Encoder, m: &Metrics, s: &Scrape)
    requires
        m.arities(),
    ensures
        final(enc).namespace@ == old(enc).namespace@,
        final(enc).buf@ == old(enc).buf@ + daemon_text(old(enc).namespace@, *m, *s),
{
    let ghost ns = enc.namespace@;
    let ghost start = enc.buf@;
    match &s.dhcp {
        Some(k) => {
            let ts = Some(k.timestamp_ms);
            enc.write(&m.net.dhcp_received, SampleValue::Int(k.pkt4_received), ts);
            enc.write(&m.net.dhcp_sent, SampleValue::Int(k.pkt4_sent), ts);
            enc.write(&m.net.dhcp_addr_fail, SampleValue::Int(k.v4_allocation_fail), ts);
        },
        None => {},
    }
    let ghost mid = enc.buf@;
    match &s.dns {
        Some(u) => {
            let ts = Some(u.timestamp_ms);
            enc.write(&m.net.dns_query, SampleValue::Int(u.total_num_queries), ts);
            enc.write(&m.net.dns_timeout, SampleValue::Int(u.total_num_queries_timed_out), ts);
        },
        None => {},
    }
    proof {
        reveal(daemon_text);
        assert(enc.buf@ =~= start + daemon_text(ns, *m, *s));
    }
}

/// Each kept mount gives exactly one sample in each filesystem family.
pub proof fn lemma_one_sample_per_mount(v: Seq<MountSample>, k: int)
    ensures
        mount_rows(v, k).len() == v.len(),
{
}

/// On a host with no mounts, thermal zones, interfaces, default route or
/// nftables sets, and with both daemons unreachable, the document holds
/// the CPU and memory families alone.
pub proof fn lemma_quiet_host(ns: Seq<char>, m: Metrics, s: Scrape)
    requires
        s.mounts@.len() == 0,
        s.thermal@.len() == 0,
        s.link_speeds@.len() == 0,
        s.links@.len() == 0,
        s.routes@.len() == 0,
        s.nft@.len() == 0,
        s.dhcp is None,
        s.dns is None,
    ensures
        document_text(ns, m, s) == system_text(ns, m, s),
{
    reveal(family_text);
    reveal(storage_text);
    reveal(network_text);
    reveal(daemon_text);
    assert(nft_rows(s.nft@) =~= Seq::<RowModel>::empty());
    assert(storage_text(ns, m, s) =~= Seq::<char>::empty());
    assert(network_text(ns, m, s) =~= Seq::<char>::empty());
    assert(daemon_text(ns, m, s) =~= Seq::<char>::empty());
    assert(document_text(ns, m, s) =~= system_text(ns, m, s));
}

/// After one successful fetch from each daemon, followed by any number of
/// failed fetches, a scrape writes exactly the counters of those
/// successes, stamped with their capture times.
pub proof fn lemma_stale_daemon_text(
    ns: Seq<char>,
    m: Metrics,
    s: Scrape,
    kea_before: Option<KeaStats>,
    kea: KeaStats,
    kea_failures: Seq<Result<KeaStats, FetchError>>,
    dns_before: Option<UnboundStats>,
    dns: UnboundStats,
    dns_failures: Seq<Result<UnboundStats, FetchError>>,
)
    requires
        forall|i: int| 0 <= i < kea_failures.len() ==> (#[trigger] kea_failures[i]) is Err,
        forall|i: int| 0 <= i < dns_failures.len() ==> (#[trigger] dns_failures[i]) is Err,
        s.dhcp == after_fetches(kea_before, seq![Ok(kea)] + kea_failures),
        s.dns == after_fetches(dns_before, seq![Ok(dns)] + dns_failures),
    ensures
        daemon_text(ns, m, s) == scalar_text(ns, m.net.dhcp_received, kea.pkt4_received, kea.timestamp_ms)
            + scalar_text(ns, m.net.dhcp_sent, kea.pkt4_sent, kea.timestamp_ms) + scalar_text(
            ns,
            m.net.dhcp_addr_fail,
            kea.v4_allocation_fail,
            kea.timestamp_ms,
        ) + scalar_text(ns, m.net.dns_query, dns.total_num_queries, dns.timestamp_ms) + scalar_text(
            ns,
            m.net.dns_timeout,
            dns.total_num_queries_timed_out,
            dns.timestamp_ms,
        ),
{
    lemma_success_then_failures(kea_before, kea, kea_failures);
    lemma_success_then_failures(dns_before, dns, dns_failures);
    reveal(daemon_text);
    assert(daemon_text(ns, m, s) =~= scalar_text(ns, m.net.dhcp_received, kea.pkt4_received, kea.timestamp_ms)
        + scalar_text(ns, m.net.dhcp_sent, kea.pkt4_sent, kea.timestamp_ms) + scalar_text(
        ns,
        m.net.dhcp_addr_fail,
        kea.v4_allocation_fail,
        kea.timestamp_ms,
    ) + scalar_text(ns, m.net.dns_query, dns.total_num_queries, dns.timestamp_ms) + scalar_text(
        ns,
        m.net.dns_timeout,
        dns.total_num_queries_timed_out,
        dns.timestamp_ms,
    ));
}

/// A scrape with one default route writes one route sample, labelled with
/// the gateway's address text and valued 1; replies that were not default
/// routes never reach the scrape (see `parse_route_message`).
pub proof fn lemma_one_default_route(s: Scrape, g: Gateway)
    requires
        s.routes@ == seq![g],
    ensures
        route_rows(s.routes@) == seq![
            RowModel { labels: seq![gateway_text(g.addr@)], value: SampleValue::Int(1) },
        ],
{
    assert(route_rows(s.routes@) =~= seq![
        RowModel { labels: seq![gateway_text(g.addr@)], value: SampleValue::Int(1) },
    ]);
}

} // verus!
