use home_router_exporter::collector::{Collector, MountSample, NftSetSample, Scrape, NAMESPACE};
use home_router_exporter::config;
use home_router_exporter::daemon::{KeaStats, UnboundStats};
use home_router_exporter::ethtool::LinkSpeed;
use home_router_exporter::nftables::{NftSet, NftSetCounter};
use home_router_exporter::procfs::{IoStats, MemInfo, MountEntry, Stat, ThermalZone, VmStat};
use home_router_exporter::rtnetlink::{Gateway, Link};

fn quiet() -> Scrape {
    Scrape {
        cpu: Some(Stat { cpu: "cpu".to_string(), idle_ticks: 150 }),
        user_hz: 100,
        mem: MemInfo { mem_total_kb: 1, mem_avail_kb: 2, swap_total_kb: 3, swap_free_kb: 4 },
        vm: VmStat { pswpin: 0, pswpout: 0 },
        page_size: 4096,
        mounts: vec![],
        thermal: vec![],
        link_speeds: vec![],
        links: vec![],
        routes: vec![],
        nft: vec![],
        dhcp: None,
        dns: None,
    }
}

#[test]
fn quiet_host_document() {
    let c = Collector::new();
    let doc = c.collect(&quiet());
    let expected = "\
# HELP homerouter_cpu_idle_seconds_total CPU idle time
# TYPE homerouter_cpu_idle_seconds_total counter
homerouter_cpu_idle_seconds_total{cpu=\"cpu\"} 1.5
# HELP homerouter_memory_size_bytes Total memory size
# TYPE homerouter_memory_size_bytes gauge
homerouter_memory_size_bytes 1024
# HELP homerouter_memory_available_bytes Estimated available memory size
# TYPE homerouter_memory_available_bytes gauge
homerouter_memory_available_bytes 2048
# HELP homerouter_memory_swap_size_bytes Total swap size
# TYPE homerouter_memory_swap_size_bytes gauge
homerouter_memory_swap_size_bytes 3072
# HELP homerouter_memory_swap_free_bytes Free swap size
# TYPE homerouter_memory_swap_free_bytes gauge
homerouter_memory_swap_free_bytes 4096
# HELP homerouter_memory_swap_in_bytes_total Total swapped-in size
# TYPE homerouter_memory_swap_in_bytes_total counter
homerouter_memory_swap_in_bytes_total 0
# HELP homerouter_memory_swap_out_bytes_total Total swapped-out size
# TYPE homerouter_memory_swap_out_bytes_total counter
homerouter_memory_swap_out_bytes_total 0
";
    assert_eq!(doc, expected);
    assert!(!doc.contains("network"));
    assert_eq!(NAMESPACE, "homerouter");
    assert_eq!(Collector::content_type(), "text/plain; version=0.0.4");
}

#[test]
fn full_scrape_order_and_values() {
    let mut s = quiet();
    s.mounts = vec![MountSample {
        entry: MountEntry { major_minor: "8:1".to_string(), source: "/dev/sda1".to_string(), mount_point: "/".to_string() },
        blocks: 100,
        avail_blocks: 40,
        frsize: 4096,
        io: IoStats { read_bytes: 512, write_bytes: 1024 },
    }];
    s.thermal = vec![ThermalZone { name: "cpu-thermal".to_string(), temp: 45250 }];
    s.link_speeds = vec![LinkSpeed { name: "eth0".to_string(), speed: 1000 }];
    s.links = vec![Link { name: "eth0".to_string(), admin_up: true, operstate: 6, rx: 11, tx: 22 }];
    s.routes = vec![Gateway { addr: vec![192, 0, 2, 1], scope_id: 0 }];
    s.nft = vec![NftSetSample {
        set: NftSet { family: 2, table: "filter".to_string(), name: "clients".to_string() },
        counters: vec![NftSetCounter { addr: "10.0.0.1".to_string(), bytes: 99 }],
    }];
    s.dhcp = Some(KeaStats { timestamp_ms: 1700000000000, pkt4_received: 1, pkt4_sent: 2, v4_allocation_fail: 3 });
    s.dns = Some(UnboundStats { timestamp_ms: 5, total_num_queries: 8, total_num_queries_timed_out: 9 });
    let doc = Collector::new().collect(&s);
    let lines: Vec<&str> = doc.lines().filter(|l| !l.starts_with('#')).collect();
    let tail = &lines[7..];
    assert_eq!(
        tail,
        &[
            "homerouter_filesystem_size_bytes{device=\"/dev/sda1\",mountpoint=\"/\"} 409600",
            "homerouter_filesystem_available_bytes{device=\"/dev/sda1\",mountpoint=\"/\"} 163840",
            "homerouter_filesystem_read_bytes_total{device=\"/dev/sda1\",mountpoint=\"/\"} 512",
            "homerouter_filesystem_write_bytes_total{device=\"/dev/sda1\",mountpoint=\"/\"} 1024",
            "homerouter_thermal_temperature_celsius{device=\"cpu-thermal\"} 45.25",
            "homerouter_network_link_speed_bytes{device=\"eth0\"} 125000000",
            "homerouter_network_link_up{device=\"eth0\"} 1",
            "homerouter_network_link_operstate{device=\"eth0\"} 6",
            "homerouter_network_link_rx_bytes_total{device=\"eth0\"} 11",
            "homerouter_network_link_tx_bytes_total{device=\"eth0\"} 22",
            "homerouter_network_route_default_info{gateway=\"192.0.2.1\"} 1",
            "homerouter_network_nft_set_counter_bytes_total{family=\"2\",table=\"filter\",set=\"clients\",key=\"10.0.0.1\"} 99",
            "homerouter_network_dhcp_received_packets_total 1 1700000000000",
            "homerouter_network_dhcp_sent_packets_total 2 1700000000000",
            "homerouter_network_dhcp_addr_fail_total 3 1700000000000",
            "homerouter_network_dns_query_total 8 5",
            "homerouter_network_dns_timeout_total 9 5",
        ]
    );
    assert_eq!(doc.matches("# HELP ").count(), 7 + 17);
}

#[test]
fn config_defaults() {
    let c = config::get(false, None, None, None);
    assert_eq!(c.hyper_addr, "0.0.0.0:9527");
    assert_eq!(c.kea_socket, "/run/kea/kea4-ctrl-socket");
    assert_eq!(c.unbound_socket, "/run/unbound.ctl");
    assert_eq!(c.procfs_path, "/proc");
    assert_eq!(c.sysfs_path, "/sys");
    let c = config::get(true, Some("127.0.0.1:1".to_string()), Some("/k".to_string()), None);
    assert!(c.debug);
    assert_eq!(c.hyper_addr, "127.0.0.1:1");
    assert_eq!(c.kea_socket, "/k");
}
