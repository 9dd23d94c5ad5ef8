use system_monitor::{
    BarColor, Computer, Interface, InterfaceAddress, InterfaceCounters, Memory, MemoryReadings,
    Network, ProbeError, bar_color, bar_fill_permille, convert_bytes_to_any, fan_reading,
    format_centi, get_os_info, overlay_text, package_sensor_index, parse_fan_line,
    parse_sensors_output,
};

#[test]
fn overlay_replaces_token_with_two_decimals() {
    assert_eq!(overlay_text("CPU Usage: #%", Some(1234)), "CPU Usage: 12.34%");
    assert_eq!(overlay_text("RPM: #", Some(120_000)), "RPM: 1200.00");
    assert_eq!(overlay_text("CPU Temperature: #°C", Some(-5)), "CPU Temperature: -0.05°C");
    assert_eq!(overlay_text("#", None), "0.00");
    assert_eq!(overlay_text("no token", Some(7)), "no token");
    assert_eq!(overlay_text("# and #", Some(100)), "1.00 and 1.00");
}

#[test]
fn centi_formatting() {
    assert_eq!(format_centi(0), "0.00");
    assert_eq!(format_centi(7), "0.07");
    assert_eq!(format_centi(1050), "10.50");
    assert_eq!(format_centi(-123_456), "-1234.56");
    assert_eq!(format_centi(i64::MIN), "-92233720368547758.08");
}

#[test]
fn bytes_in_each_unit() {
    assert_eq!(convert_bytes_to_any(0), "0B");
    assert_eq!(convert_bytes_to_any(512), "512B");
    assert_eq!(convert_bytes_to_any(1023), "1023B");
    assert_eq!(convert_bytes_to_any(1024), "1.00Ko");
    assert_eq!(convert_bytes_to_any(1536), "1.50Ko");
    assert_eq!(convert_bytes_to_any(1152), "1.12Ko");
    assert_eq!(convert_bytes_to_any(1162), "1.13Ko");
    assert_eq!(convert_bytes_to_any(1178), "1.15Ko");
    assert_eq!(convert_bytes_to_any(1408), "1.38Ko");
    assert_eq!(convert_bytes_to_any(1_048_576), "1.00Mo");
    assert_eq!(convert_bytes_to_any(1_610_612_736), "1.50Go");
    assert_eq!(convert_bytes_to_any(16 * 1_073_741_824), "16.00Go");
    assert_eq!(convert_bytes_to_any(u64::MAX), "17179869184.00Go");
}

#[test]
fn memory_from_readings() {
    let mut m = Memory::new();
    assert_eq!(m.ram.total_ram, 0);
    assert_eq!(m.storage.free_disk, 0);
    let r = MemoryReadings {
        total_ram: 16_000,
        used_ram: 6_000,
        total_swap: 2_000,
        used_swap: 3_000,
        total_disk: 500_000,
        available_disk: 200_000,
    };
    m.get_memory(&r);
    assert_eq!(m.ram.free_ram, 10_000);
    assert_eq!(m.ram.used_ram, 6_000);
    assert_eq!(m.swap.free_swap, 0);
    assert_eq!(m.swap.total_swap, 2_000);
    assert_eq!(m.storage.used_disk, 300_000);
    assert_eq!(m.storage.free_disk, 200_000);
}

#[test]
fn fan_line_with_speeds() {
    let f = parse_fan_line("fan1:        1200 RPM  (min =    0 RPM, max = 4000 RPM)");
    assert_eq!(f.rpm, Some(1200));
    assert_eq!(f.min_rpm, Some(0));
    assert_eq!(f.max_rpm, Some(4000));
    assert_eq!(f.state.as_deref(), Some("On"));
    let g = parse_fan_line("cpu fan1:0 RPM(min=0 RPM,max=0 RPM)");
    assert_eq!(g.rpm, Some(0));
    assert_eq!(g.state.as_deref(), Some("Off"));
}

#[test]
fn fan_line_without_reading() {
    let f = parse_fan_line("fan1:          N/A");
    assert_eq!(f.rpm, None);
    assert_eq!(f.min_rpm, None);
    assert_eq!(f.max_rpm, None);
    assert_eq!(f.state, None);
}

#[test]
fn fan_speed_too_large_counts_as_zero() {
    let f = parse_fan_line("fan1: 99999999999 RPM (min = 1 RPM, max = 2147483647 RPM)");
    assert_eq!(f.rpm, Some(0));
    assert_eq!(f.min_rpm, Some(1));
    assert_eq!(f.max_rpm, Some(2_147_483_647));
    assert_eq!(f.state.as_deref(), Some("Off"));
}

#[test]
fn sensors_output_lists_each_fan_line() {
    let out = "thinkpad-isa-0000\r\nAdapter: ISA adapter\r\nfan1:        2100 RPM  (min = 100 RPM, max = 5000 RPM)\r\nCPU:          +45.0°C\nfan1: N/A\n";
    let fans = parse_sensors_output(out);
    assert_eq!(fans.len(), 2);
    assert_eq!(fans[0].rpm, Some(2100));
    assert_eq!(fans[0].max_rpm, Some(5000));
    assert_eq!(fans[1].rpm, None);
    assert_eq!(fan_reading(&fans), Ok(210_000));
    assert!(parse_sensors_output("").is_empty());
    assert!(parse_sensors_output("temp1: +30.0°C\n").is_empty());
}

#[test]
fn fan_reading_errors() {
    assert_eq!(fan_reading(&vec![]), Err(ProbeError::SourceUnavailable));
    let fans = parse_sensors_output("fan1: broken\n");
    assert_eq!(fan_reading(&fans), Err(ProbeError::ParseFailure));
}

#[test]
fn os_name_from_release_file() {
    let text = "NAME=\"Ubuntu\"\nVERSION_ID=\"22.04\"\nPRETTY_NAME=\"Ubuntu 22.04.3 LTS\"\nID=ubuntu\n";
    assert_eq!(get_os_info(text), "Ubuntu 22.04.3 LTS");
    assert_eq!(get_os_info("ID=arch\n"), "N/A");
    assert_eq!(get_os_info(""), "N/A");
    assert_eq!(get_os_info("PRETTY_NAME\nPRETTY_NAME=Debian=12\n"), "Debian");
}

#[test]
fn computer_description() {
    let mut c = Computer::new();
    assert_eq!(c.cpu_core_count, 0);
    assert_eq!(c.cpu_info, "N/A");
    assert_eq!(c.username, "N/A");
    let brands = vec!["Ryzen 7".to_string(), "Ryzen 7".to_string()];
    c.initialize(&brands, Some("PRETTY_NAME=\"Fedora 40\"\n"), Some("box".to_string()), None);
    assert_eq!(c.cpu_core_count, 2);
    assert_eq!(c.cpu_info, "Ryzen 7");
    assert_eq!(c.os_info, "Fedora 40");
    assert_eq!(c.hostname, "box");
    assert_eq!(c.username, "N/A");
    c.initialize(&vec![], None, None, Some("ann".to_string()));
    assert_eq!(c.cpu_info, "N/A");
    assert_eq!(c.os_info, "N/A");
    assert_eq!(c.username, "ann");
}

#[test]
fn network_interfaces_and_addresses() {
    let mut n = Network::new();
    assert_eq!(n.get_max_received(), 1);
    assert_eq!(n.get_max_transmitted(), 1);
    let counters = vec![
        InterfaceCounters {
            name: "lo".to_string(),
            total_received: 500,
            total_transmitted: 500,
            received: 3,
            transmitted: 4,
        },
        InterfaceCounters {
            name: "eth0".to_string(),
            total_received: 9000,
            total_transmitted: 120,
            received: 7,
            transmitted: 8,
        },
    ];
    let addrs = vec![
        InterfaceAddress { name: "eth0".to_string(), ip: [10, 0, 0, 2] },
        InterfaceAddress { name: "lo".to_string(), ip: [127, 0, 0, 1] },
        InterfaceAddress { name: "eth0".to_string(), ip: [192, 168, 1, 9] },
        InterfaceAddress { name: "wlan0".to_string(), ip: [1, 2, 3, 4] },
    ];
    n.initialize(&counters, &addrs);
    assert_eq!(n.interfaces.len(), 2);
    assert_eq!(n.interfaces[0].name, "lo");
    assert_eq!(n.interfaces[0].ip, [127, 0, 0, 1]);
    assert_eq!(n.interfaces[1].ip, [192, 168, 1, 9]);
    let rx = n.interfaces[1].rx_stats.as_ref().unwrap();
    assert_eq!((rx.bytes, rx.packets, rx.multicast), (7, 7, 7));
    let tx = n.interfaces[1].tx_stats.as_ref().unwrap();
    assert_eq!((tx.bytes, tx.colls, tx.carrier), (8, 8, 8));
    assert_eq!(n.get_max_received(), 9000);
    assert_eq!(n.get_max_transmitted(), 500);
    let i = Interface::new("x".to_string(), [0, 0, 0, 0], 1, 2);
    assert!(i.rx_stats.is_none());
}

#[test]
fn bar_colours_and_fill() {
    assert_eq!(bar_color(0), BarColor::Green);
    assert_eq!(bar_color(1_073_741_824), BarColor::Green);
    assert_eq!(bar_color(1_073_741_825), BarColor::Yellow);
    assert_eq!(bar_color(1_431_655_765), BarColor::Yellow);
    assert_eq!(bar_color(1_431_655_766), BarColor::Red);
    assert_eq!(bar_fill_permille(1_073_741_824), 500);
    assert_eq!(bar_fill_permille(u64::MAX), 1000);
    assert_eq!(bar_fill_permille(0), 0);
}

#[test]
fn package_sensor_is_found_by_label() {
    let labels = vec![
        "acpitz temp1".to_string(),
        "coretemp Core 0".to_string(),
        "coretemp Package id 0".to_string(),
        "coretemp Package id 0 again".to_string(),
    ];
    assert_eq!(package_sensor_index(&labels), Some(2));
    assert_eq!(package_sensor_index(&labels[..2].to_vec()), None);
    assert_eq!(package_sensor_index(&vec![]), None);
}
