use home_router_exporter::metric::{
    build_name, escape_label_value, unescape_label_value, Encoder, Info, SampleValue, Type, Unit,
};

fn info(subsys: &'static str, name: &'static str, unit: Unit, ty: Type, keys: Vec<&'static str>) -> Info {
    Info { subsys, name, help: "Some help", unit, ty, label_keys: keys }
}

#[test]
fn name_is_documented_concatenation() {
    let i = info("cpu", "idle", Unit::Seconds, Type::Counter, vec!["cpu"]);
    assert_eq!(build_name("homerouter", &i), "homerouter_cpu_idle_seconds_total");
    let i = info("network", "link_up", Unit::Unitless, Type::Gauge, vec!["device"]);
    assert_eq!(build_name("homerouter", &i), "homerouter_network_link_up");
    let i = info("thermal", "temperature", Unit::Celsius, Type::Gauge, vec![]);
    assert_eq!(build_name("ns", &i), "ns_thermal_temperature_celsius");
    let i = info("network", "dhcp_sent", Unit::Packets, Type::Counter, vec![]);
    assert_eq!(build_name("ns", &i), "ns_network_dhcp_sent_packets_total");
    let i = info("network", "route_default", Unit::Info, Type::Gauge, vec![]);
    assert_eq!(build_name("ns", &i), "ns_network_route_default_info");
    let i = info("x", "y", Unit::Hertz, Type::Gauge, vec![]);
    assert_eq!(build_name("ns", &i), "ns_x_y_hertz");
    let i = info("x", "y", Unit::Bytes, Type::Counter, vec![]);
    assert_eq!(build_name("ns", &i), "ns_x_y_bytes_total");
}

#[test]
fn escape_quote_and_backslash() {
    assert_eq!(escape_label_value("a\"b\\c"), "a\\\"b\\\\c");
    assert_eq!(escape_label_value("line\nbreak"), "line\\nbreak");
    assert_eq!(escape_label_value(""), "");
    assert_eq!(escape_label_value("plain-ünïcode"), "plain-ünïcode");
}

#[test]
fn unescape_recovers_value() {
    for s in ["a\"b\\c", "\\\\\n\"", "\n", "", "x\\ny", "end\\"] {
        let e = escape_label_value(s);
        assert_eq!(unescape_label_value(&e), s);
    }
}

#[test]
fn scalar_write_has_header_and_sample() {
    let i = Info {
        subsys: "memory",
        name: "size",
        help: "Total memory size",
        unit: Unit::Bytes,
        ty: Type::Gauge,
        label_keys: vec![],
    };
    let mut enc = Encoder::new("ns");
    enc.write(&i, SampleValue::Int(1024), None);
    assert_eq!(
        enc.as_str(),
        "# HELP ns_memory_size_bytes Total memory size\n# TYPE ns_memory_size_bytes gauge\nns_memory_size_bytes 1024\n"
    );
}

#[test]
fn labelled_samples_share_one_header() {
    let i = info("fs", "size", Unit::Bytes, Type::Counter, vec!["device", "mountpoint"]);
    let mut enc = Encoder::new("ns");
    let mut m = enc.with_info(&i, Some(1700000000123));
    m.write(&mut enc, &vec!["/dev/sda1".to_string(), "/".to_string()], SampleValue::Int(7));
    m.write(&mut enc, &vec!["a\"b".to_string(), "/mnt".to_string()], SampleValue::Int(0));
    assert_eq!(
        enc.into_string(),
        "# HELP ns_fs_size_bytes_total Some help\n# TYPE ns_fs_size_bytes_total counter\n\
         ns_fs_size_bytes_total{device=\"/dev/sda1\",mountpoint=\"/\"} 7 1700000000123\n\
         ns_fs_size_bytes_total{device=\"a\\\"b\",mountpoint=\"/mnt\"} 0 1700000000123\n"
    );
}

#[test]
fn family_without_samples_writes_nothing() {
    let i = info("fs", "size", Unit::Bytes, Type::Gauge, vec!["device"]);
    let enc = Encoder::new("ns");
    let _m = enc.with_info(&i, None);
    assert_eq!(enc.as_str(), "");
}

#[test]
fn milli_values_render_as_decimals() {
    let i = info("t", "v", Unit::Unitless, Type::Gauge, vec![]);
    let cases = [(1500u64, "1.5"), (12345, "12.345"), (2000, "2"), (1010, "1.01"), (7, "0.007"), (0, "0")];
    for (v, text) in cases {
        let mut enc = Encoder::new("n");
        enc.write(&i, SampleValue::Milli(v), None);
        let doc = enc.into_string();
        let last = doc.lines().last().unwrap().to_string();
        assert_eq!(last, format!("n_t_v {}", text));
    }
}

#[test]
fn integer_values_and_suffixes() {
    let i = info("t", "v", Unit::Unitless, Type::Gauge, vec![]);
    let mut enc = Encoder::new("n");
    enc.write(&i, SampleValue::Int(u64::MAX), Some(0));
    assert!(enc.as_str().ends_with("n_t_v 18446744073709551615\n"));
    assert_eq!(Unit::Unitless.as_suffix(), "");
    assert_eq!(Unit::Hertz.as_suffix(), "_hertz");
    assert_eq!(Type::Counter.as_str(), "counter");
    assert_eq!(Type::Gauge.as_suffix(), "");
}
