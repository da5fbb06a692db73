use unitctl::config::{
    CpuTempSensorConfig, LteSensorConfig, PingSensorConfig, SensorsConfig, SystemSensorConfig,
};
use unitctl::messages::telemetry::{CameraInfo, DiskUsage, LoadAverage, RamUsage};
use unitctl::net::{
    ipv4_map_for_all_interfaces, resolve_ipv4, InterfaceAddress, InterfaceIpv4, Ipv4,
    ResolveIpError,
};
use unitctl::number::{Binary32, Binary64, FloatText};
use unitctl::sensors::cpu_temp::{parse_temperature, read_temperature, CpuTempSensor, TempReadError};
use unitctl::sensors::ping::{
    build_ping_regex, calculate_loss_percent, compute_reading, parse_ping_line, stats_from_groups,
    PingEvent, PingExit, PingRegex, PingSensor, PingSession, PingStats,
};
use unitctl::sensors::system::{
    camera_info, compute_bps, fourcc_text, is_loopback, network_telemetry, FrameSize, NetCounters,
    ProbedFormat, SystemReading, SystemSensor, DEFAULT_THERMAL_PATH,
};
use unitctl::sensors::{Sensor, SensorManager};
use unitctl::time::Duration;

fn secs(x: f64) -> Binary64 {
    Binary64 { bits: x.to_bits() }
}

fn float(text: &str) -> FloatText {
    FloatText::parse(text).unwrap()
}

fn number(f: &FloatText) -> f64 {
    f.as_str().parse().unwrap()
}

fn celsius(millidegrees: i64) -> f64 {
    millidegrees as f64 / 1000.0
}

// Temperatures

#[test]
fn test_parse_normal_temperature() {
    let result = celsius(parse_temperature("42500\n").unwrap());
    assert!((result - 42.5).abs() < f64::EPSILON);
}

#[test]
fn test_parse_zero_temperature() {
    let result = celsius(parse_temperature("0\n").unwrap());
    assert!((result - 0.0).abs() < f64::EPSILON);
}

#[test]
fn test_parse_high_temperature() {
    let result = celsius(parse_temperature("85000\n").unwrap());
    assert!((result - 85.0).abs() < f64::EPSILON);
}

#[test]
fn test_parse_negative_temperature() {
    let result = celsius(parse_temperature("-5000\n").unwrap());
    assert!((result - (-5.0)).abs() < f64::EPSILON);
}

#[test]
fn test_parse_fractional_temperature() {
    // 47123 millidegrees = 47.123 degrees
    let result = celsius(parse_temperature("47123\n").unwrap());
    assert!((result - 47.123).abs() < f64::EPSILON);
}

#[test]
fn test_parse_no_trailing_newline() {
    let result = celsius(parse_temperature("42500").unwrap());
    assert!((result - 42.5).abs() < f64::EPSILON);
}

#[test]
fn test_parse_extra_whitespace() {
    let result = celsius(parse_temperature("  42500  \n").unwrap());
    assert!((result - 42.5).abs() < f64::EPSILON);
}

#[test]
fn test_parse_empty_string() {
    let result = parse_temperature("");
    assert!(result.is_err());
    match result.unwrap_err() {
        TempReadError::Parse(msg) => assert!(msg.contains("empty")),
        _ => panic!("expected Parse error"),
    }
}

#[test]
fn test_parse_non_numeric() {
    let result = parse_temperature("not_a_number\n");
    assert!(result.is_err());
    match result.unwrap_err() {
        TempReadError::Parse(msg) => assert!(msg.contains("invalid integer")),
        _ => panic!("expected Parse error"),
    }
}

#[test]
fn test_parse_float_input() {
    // sysfs should always be integer, but handle gracefully
    let result = parse_temperature("42.5\n");
    assert!(result.is_err());
}

#[test]
fn integer_faults_are_named() {
    for text in ["x", "-", "+", "9223372036854775808", "-9223372036854775809", "1x", "99999999999999999999x"] {
        let expected = text.parse::<i64>().unwrap_err();
        match parse_temperature(text).unwrap_err() {
            TempReadError::Parse(msg) => assert_eq!(msg, format!("invalid integer: {}", expected)),
            _ => panic!("expected Parse error"),
        }
    }
    assert_eq!(parse_temperature("-9223372036854775808").unwrap(), i64::MIN);
    assert_eq!(parse_temperature("+9223372036854775807").unwrap(), i64::MAX);
}

fn not_found() -> Result<String, String> {
    Err("No such file or directory (os error 2)".to_string())
}

#[test]
fn test_read_missing_file() {
    let result = read_temperature(&not_found());
    assert!(result.is_err());
    match result.unwrap_err() {
        TempReadError::Io(_) => {}
        _ => panic!("expected Io error"),
    }
}

#[test]
fn test_read_valid_file() {
    let result = celsius(read_temperature(&Ok("55000\n".to_string())).unwrap());
    assert!((result - 55.0).abs() < f64::EPSILON);
}

#[test]
fn test_read_empty_file() {
    let result = read_temperature(&Ok("".to_string()));
    assert!(result.is_err());
}

#[test]
fn test_read_invalid_content() {
    let result = read_temperature(&Ok("garbage\n".to_string()));
    assert!(result.is_err());
}

#[test]
fn parse_normal_temperature() {
    assert!((celsius(parse_temperature("42500\n").unwrap()) - 42.5).abs() < f64::EPSILON);
}

#[test]
fn parse_negative_temperature() {
    assert!((celsius(parse_temperature("-5000\n").unwrap()) - (-5.0)).abs() < f64::EPSILON);
}

#[test]
fn parse_empty_rejected() {
    let err = parse_temperature("").unwrap_err();
    assert!(matches!(err, TempReadError::Parse(_)));
}

#[test]
fn parse_garbage_rejected() {
    let err = parse_temperature("garbage\n").unwrap_err();
    assert!(matches!(err, TempReadError::Parse(_)));
}

#[test]
fn read_missing_path() {
    assert!(read_temperature(&not_found()).is_err());
}

#[test]
fn test_temp_read_error_display() {
    let io_err = TempReadError::Io("file not found".to_string());
    assert!(io_err.to_string().contains("io error"));

    let parse_err = TempReadError::Parse("bad data".to_string());
    assert!(parse_err.to_string().contains("parse error"));
    assert!(parse_err.to_string().contains("bad data"));
}

// The CPU temperature sensor

#[test]
fn test_cpu_temp_sensor_new_with_defaults() {
    let config = CpuTempSensorConfig::default();
    let sensor = CpuTempSensor::new(&config, secs(5.0));
    assert_eq!(sensor.name(), "cpu_temp");
    assert_eq!(sensor.interval_s, secs(5.0));
    assert_eq!(sensor.thermal_path, DEFAULT_THERMAL_PATH);
}

#[test]
fn test_cpu_temp_sensor_new_with_interval_override() {
    let config = CpuTempSensorConfig {
        enabled: true,
        interval_s: Some(secs(2.0)),
    };
    let sensor = CpuTempSensor::new(&config, secs(5.0));
    assert_eq!(sensor.interval_s, secs(2.0));
}

#[test]
fn test_cpu_temp_sensor_with_custom_path() {
    let config = CpuTempSensorConfig::default();
    let sensor = CpuTempSensor::with_path(&config, secs(1.0), "/custom/path".to_string());
    assert_eq!(sensor.thermal_path, "/custom/path");
}

#[test]
fn test_cpu_temp_sensor_reads_from_file() {
    let config = CpuTempSensorConfig {
        enabled: true,
        interval_s: Some(secs(0.1)),
    };
    let sensor = CpuTempSensor::with_path(&config, secs(1.0), "temp".to_string());
    let reading = sensor.on_tick(&Ok("65000\n".to_string())).unwrap();
    assert!((celsius(reading.millidegrees_c) - 65.0).abs() < f64::EPSILON);
}

#[test]
fn test_cpu_temp_sensor_handles_missing_file() {
    let config = CpuTempSensorConfig {
        enabled: true,
        interval_s: Some(secs(0.1)),
    };
    let sensor =
        CpuTempSensor::with_path(&config, secs(1.0), "/nonexistent/thermal/temp".to_string());
    assert!(sensor.on_tick(&not_found()).is_err());
}

// The sensor manager

fn sensors_config(ping: bool, lte: bool, system: bool) -> SensorsConfig {
    SensorsConfig {
        default_interval_s: secs(1.0),
        ping: PingSensorConfig {
            enabled: ping,
            ..PingSensorConfig::default()
        },
        lte: LteSensorConfig {
            enabled: lte,
            ..LteSensorConfig::default()
        },
        system: SystemSensorConfig {
            enabled: system,
            ..SystemSensorConfig::default()
        },
    }
}

#[test]
fn test_sensor_manager_empty_when_all_disabled() {
    let manager = SensorManager::new(&sensors_config(false, false, false), "eth0");
    assert_eq!(manager.sensors.as_ref().unwrap().len(), 0);
}

#[test]
fn test_sensor_manager_count_with_defaults() {
    // With default config, all sensors are enabled (ping, lte, system).
    let config = SensorsConfig::default();
    let manager = SensorManager::new(&config, "eth0");
    assert_eq!(manager.sensors.as_ref().unwrap().len(), 3);
}

#[test]
fn test_sensor_manager_only_ping_enabled() {
    let manager = SensorManager::new(&sensors_config(true, false, false), "eth0");
    assert_eq!(manager.sensors.as_ref().unwrap().len(), 1);
    assert_eq!(manager.sensors.as_ref().unwrap()[0].name(), "ping");
}

#[test]
fn test_sensor_manager_only_lte_enabled() {
    let manager = SensorManager::new(&sensors_config(false, true, false), "eth0");
    assert_eq!(manager.sensors.as_ref().unwrap().len(), 1);
    assert_eq!(manager.sensors.as_ref().unwrap()[0].name(), "lte");
}

#[test]
fn test_sensor_manager_only_system_enabled() {
    let manager = SensorManager::new(&sensors_config(false, false, true), "eth0");
    assert_eq!(manager.sensors.as_ref().unwrap().len(), 1);
    assert_eq!(manager.sensors.as_ref().unwrap()[0].name(), "system");
}

#[test]
fn test_sensor_manager_two_of_three_enabled() {
    let manager = SensorManager::new(&sensors_config(true, false, true), "eth0");
    assert_eq!(manager.sensors.as_ref().unwrap().len(), 2);
    let sensors = manager.sensors.as_ref().unwrap();
    assert_eq!(sensors[0].name(), "ping");
    assert_eq!(sensors[1].name(), "system");
}

#[test]
fn sensors_are_handed_out_once() {
    let mut manager = SensorManager::new(&sensors_config(true, true, true), "eth0");
    assert_eq!(manager.take().len(), 3);
    assert!(manager.sensors.is_none());
}

// Ping statistics

fn re() -> PingRegex {
    build_ping_regex()
}

#[test]
fn test_parse_connected_with_latency() {
    let line = "5/5 packets, 0% loss, min/avg/ewma/max = 0.123/0.456/0.789/1.234 ms";
    let stats = parse_ping_line(&re(), line).unwrap();
    assert_eq!(stats.packets_rcvd, 5);
    assert_eq!(stats.packets_sent, 5);
    assert!((number(&stats.latency_ms.unwrap()) - 0.789).abs() < f64::EPSILON);
}

#[test]
fn test_parse_disconnected_no_latency() {
    // When all packets are lost, ping omits the timing section
    let line = "0/5 packets, 100% loss";
    let stats = parse_ping_line(&re(), line).unwrap();
    assert_eq!(stats.packets_rcvd, 0);
    assert_eq!(stats.packets_sent, 5);
    assert!(stats.latency_ms.is_none());
}

#[test]
fn test_parse_partial_loss() {
    let line = "3/5 packets, 40% loss, min/avg/ewma/max = 1.0/2.0/1.5/3.0 ms";
    let stats = parse_ping_line(&re(), line).unwrap();
    assert_eq!(stats.packets_rcvd, 3);
    assert_eq!(stats.packets_sent, 5);
    assert!((number(&stats.latency_ms.unwrap()) - 1.5).abs() < f64::EPSILON);
}

#[test]
fn test_parse_large_packet_counts() {
    let line = "12345/12350 packets, 0% loss, min/avg/ewma/max = 10.0/20.0/15.0/30.0 ms";
    let stats = parse_ping_line(&re(), line).unwrap();
    assert_eq!(stats.packets_rcvd, 12345);
    assert_eq!(stats.packets_sent, 12350);
    assert!((number(&stats.latency_ms.unwrap()) - 15.0).abs() < f64::EPSILON);
}

#[test]
fn test_parse_non_matching_line() {
    let line = "PING 10.45.0.2 (10.45.0.2) 56(84) bytes of data.";
    assert!(parse_ping_line(&re(), line).is_none());
}

#[test]
fn test_parse_empty_line() {
    assert!(parse_ping_line(&re(), "").is_none());
}

#[test]
fn test_parse_garbage_input() {
    assert!(parse_ping_line(&re(), "random garbage text").is_none());
}

#[test]
fn packet_counts_have_to_fit() {
    assert!(parse_ping_line(&re(), "1/18446744073709551616 packets, 0% loss").is_none());
    assert!(parse_ping_line(&re(), "1/18446744073709551615 packets, 0% loss").is_some());
}

#[test]
fn groups_that_are_no_number_are_no_statistics() {
    let some = |s: &str| Some(s.to_string());
    assert!(stats_from_groups(&None).is_none());
    assert!(stats_from_groups(&Some(vec![some("x"), None, some("5")])).is_none());
    assert!(stats_from_groups(&Some(vec![some("x"), some("5")])).is_none());
    let stats = stats_from_groups(&Some(vec![some("x"), some("4"), some("5"), some("1.2.3")]));
    let stats = stats.unwrap();
    assert_eq!((stats.packets_rcvd, stats.packets_sent), (4, 5));
    assert!(stats.latency_ms.is_none());
}

#[test]
fn test_loss_zero_when_all_received() {
    assert_eq!(calculate_loss_percent(5, 5), 0);
}

#[test]
fn test_loss_100_when_none_received() {
    assert_eq!(calculate_loss_percent(5, 0), 100);
}

#[test]
fn test_loss_partial() {
    // 3 received of 5 sent = 40% loss
    assert_eq!(calculate_loss_percent(5, 3), 40);
}

#[test]
fn test_loss_rounds_up() {
    // 2 received of 3 sent = 33.33...% loss -> ceil = 34
    assert_eq!(calculate_loss_percent(3, 2), 34);
}

#[test]
fn test_loss_zero_when_no_packets_sent() {
    assert_eq!(calculate_loss_percent(0, 0), 0);
}

#[test]
fn test_loss_zero_when_rcvd_exceeds_sent() {
    // Edge case: should not happen but handle gracefully
    assert_eq!(calculate_loss_percent(3, 5), 0);
}

#[test]
fn test_loss_one_of_many() {
    // 99 received of 100 sent = 1% loss
    assert_eq!(calculate_loss_percent(100, 99), 1);
}

#[test]
fn test_loss_ceil_small_fraction() {
    // 99 received of 200 sent: 101 of 200 lost = 50.5% loss -> ceil = 51
    assert_eq!(calculate_loss_percent(200, 99), 51);
}

#[test]
fn loss_of_huge_counts() {
    assert_eq!(calculate_loss_percent(u64::MAX, 0), 100);
    assert_eq!(calculate_loss_percent(u64::MAX, u64::MAX - 1), 1);
    assert_eq!(calculate_loss_percent(100, 57), 43);
}

#[test]
fn test_reading_connected() {
    let stats = PingStats {
        packets_rcvd: 5,
        packets_sent: 5,
        latency_ms: Some(float("10.5")),
    };
    let mut prev_sent = 0;
    let mut prev_rcvd = 0;

    let reading = compute_reading(&stats, &mut prev_sent, &mut prev_rcvd);
    assert!(reading.reachable);
    assert!((number(&reading.latency_ms) - 10.5).abs() < f64::EPSILON);
    assert_eq!(reading.loss_percent, 0);
    assert_eq!(prev_sent, 5);
    assert_eq!(prev_rcvd, 5);
}

#[test]
fn test_reading_disconnected() {
    let stats = PingStats {
        packets_rcvd: 0,
        packets_sent: 5,
        latency_ms: None,
    };
    let mut prev_sent = 0;
    let mut prev_rcvd = 0;

    let reading = compute_reading(&stats, &mut prev_sent, &mut prev_rcvd);
    assert!(!reading.reachable);
    assert!((number(&reading.latency_ms) - 0.0).abs() < f64::EPSILON);
    assert_eq!(reading.loss_percent, 100);
}

#[test]
fn test_reading_delta_based_loss() {
    let mut prev_sent: u64 = 10;
    let mut prev_rcvd: u64 = 10;

    // Second reading: 15 sent, 13 received -> delta: 5 sent, 3 rcvd -> 40% loss
    let stats = PingStats {
        packets_rcvd: 13,
        packets_sent: 15,
        latency_ms: Some(float("20.0")),
    };
    let reading = compute_reading(&stats, &mut prev_sent, &mut prev_rcvd);
    assert!(reading.reachable);
    assert_eq!(reading.loss_percent, 40);
    assert!((number(&reading.latency_ms) - 20.0).abs() < f64::EPSILON);
}

#[test]
fn test_reading_full_loss_with_latency_from_before() {
    // Edge case: latency is None but loss < 100 shouldn't happen in practice,
    // but if it did, reachable should be false
    let stats = PingStats {
        packets_rcvd: 5,
        packets_sent: 5,
        latency_ms: None,
    };
    let mut prev_sent = 0;
    let mut prev_rcvd = 0;

    let reading = compute_reading(&stats, &mut prev_sent, &mut prev_rcvd);
    // No latency means not reachable, even if 0% loss
    assert!(!reading.reachable);
}

#[test]
fn restarted_counters_do_not_underflow() {
    let mut prev_sent: u64 = 100;
    let mut prev_rcvd: u64 = 90;
    let stats = PingStats { packets_rcvd: 1, packets_sent: 2, latency_ms: Some(float("3")) };
    let reading = compute_reading(&stats, &mut prev_sent, &mut prev_rcvd);
    assert_eq!(reading.loss_percent, 0);
    assert_eq!((prev_sent, prev_rcvd), (2, 1));
}

#[test]
fn test_ping_sensor_new_with_defaults() {
    let config = PingSensorConfig {
        enabled: true,
        interval_s: None,
        host: "10.45.0.2".to_string(),
    };
    let sensor = PingSensor::new(&config, String::new(), secs(1.0));
    assert_eq!(sensor.host, "10.45.0.2");
    assert_eq!(sensor.interface, "");
    assert_eq!(sensor.interval_s, secs(1.0));
    assert_eq!(sensor.arguments(), vec!["-q", "-i0.2", "10.45.0.2"]);
}

#[test]
fn test_ping_sensor_new_with_override() {
    let config = PingSensorConfig {
        enabled: true,
        interval_s: Some(secs(0.5)),
        host: "192.168.1.1".to_string(),
    };
    let sensor = PingSensor::new(&config, "eth0".to_string(), secs(1.0));
    assert_eq!(sensor.host, "192.168.1.1");
    assert_eq!(sensor.interface, "eth0");
    assert_eq!(sensor.interval_s, secs(0.5));
    assert_eq!(sensor.arguments(), vec!["-I", "eth0", "-q", "-i0.2", "192.168.1.1"]);
}

#[test]
fn test_sensor_name() {
    let config = PingSensorConfig::default();
    let sensor = PingSensor::new(&config, String::new(), secs(1.0));
    assert_eq!(sensor.name(), "ping");
}

#[test]
fn ping_session_follows_the_process() {
    let mut session = PingSession::new();
    let line = "10/10 packets, 0% loss, min/avg/ewma/max = 1.0/2.0/1.5/3.0 ms".to_string();
    let first = session.step(PingEvent::Line(line));
    assert_eq!(first.reading.unwrap().loss_percent, 0);
    assert!(first.exit.is_none());
    let line = "13/15 packets, 13% loss, min/avg/ewma/max = 1.0/2.0/1.5/3.0 ms".to_string();
    assert_eq!(session.step(PingEvent::Line(line)).reading.unwrap().loss_percent, 40);
    assert!(session.step(PingEvent::Line("noise".to_string())).reading.is_none());
    assert!(session.step(PingEvent::ReadError).exit.is_none());
    assert!(session.stderr_open);
    assert!(session.step(PingEvent::Eof).exit.is_none());
    assert!(!session.stderr_open);
    let exited = session.step(PingEvent::Exited(Some(2)));
    assert!(!exited.reading.unwrap().reachable);
    assert!(matches!(exited.exit, Some(PingExit::ProcessExited(Some(2)))));
    assert!(exited.exit.unwrap().restarts());
    let cancelled = session.step(PingEvent::Cancelled);
    assert!(cancelled.reading.is_none());
    assert!(!cancelled.exit.unwrap().restarts());
    assert!(PingExit::SpawnError("no such program".to_string()).restarts());
}

// Bandwidth

#[test]
fn bps_first_tick_is_zero() {
    assert_eq!(compute_bps(None, 1_000_000, Duration::from_secs(1)), 0);
}

#[test]
fn bps_normal_case() {
    assert_eq!(
        compute_bps(Some(0), 125_000, Duration::from_secs(1)),
        1_000_000
    );
}

#[test]
fn bps_counter_wrap_is_zero() {
    assert_eq!(compute_bps(Some(2_000_000), 100, Duration::from_secs(1)), 0);
}

#[test]
fn bps_zero_elapsed_is_zero() {
    assert_eq!(compute_bps(Some(0), 1_000_000, Duration::from_secs(0)), 0);
}

#[test]
fn bps_sub_second_elapsed() {
    assert_eq!(
        compute_bps(Some(0), 12_500, Duration::from_millis(100)),
        1_000_000
    );
}

#[test]
fn bps_is_rounded_and_capped() {
    assert_eq!(compute_bps(Some(0), 1, Duration::from_secs(3)), 3);
    assert_eq!(compute_bps(Some(0), 1, Duration::from_secs(16)), 1);
    assert_eq!(compute_bps(Some(0), 1, Duration::from_secs(17)), 0);
    assert_eq!(compute_bps(Some(0), u64::MAX, Duration { secs: 0, nanos: 1 }), u64::MAX);
}

/// The rate in floating point.
fn float_bps(delta: u64, secs: u64, nanos: u32) -> u64 {
    let elapsed = std::time::Duration::new(secs, nanos).as_secs_f64();
    let bps = (delta as f64 * 8.0 / elapsed).round();
    if bps > u64::MAX as f64 {
        u64::MAX
    } else {
        bps as u64
    }
}

#[test]
fn bps_has_the_precision_of_floating_point() {
    let large = 9_007_199_254_740_993u64;
    assert_eq!(
        compute_bps(Some(0), large, Duration::from_secs(1)),
        72_057_594_037_927_936
    );
    assert_eq!(compute_bps(Some(0), large, Duration::from_secs(1)), float_bps(large, 1, 0));

    // Counters and spans of all sizes
    let mut state: u64 = 0x9e37_79b9_7f4a_7c15;
    let mut next = || {
        state ^= state << 13;
        state ^= state >> 7;
        state ^= state << 17;
        state
    };
    for _ in 0..200_000 {
        let shift = next() % 64;
        let delta = next() >> shift;
        let shift = next() % 64;
        let secs = next() >> shift;
        let nanos = (next() % 1_000_000_000) as u32 >> (next() % 32);
        for (s, n) in [(secs, nanos), (0, nanos), (secs, 0), (secs % 10, nanos)] {
            if s == 0 && n == 0 {
                continue;
            }
            assert_eq!(
                compute_bps(Some(0), delta, Duration { secs: s, nanos: n }),
                float_bps(delta, s, n),
                "delta {delta}, {s} s, {n} ns"
            );
        }
    }
}

#[test]
fn loopback_filter() {
    assert!(is_loopback("lo"));
    assert!(!is_loopback("eth0"));
    assert!(!is_loopback("wlan0"));
    assert!(!is_loopback("lo:1"));
}

fn counters(name: &str, rx_bytes: u64, tx_bytes: u64) -> NetCounters {
    NetCounters { name: name.to_string(), rx_bytes, tx_bytes }
}

#[test]
fn network_report_skips_loopback() {
    let prev = vec![counters("eth0", 1000, 500)];
    let curr = vec![counters("lo", 9, 9), counters("eth0", 2000, 400), counters("wlan0", 5, 5)];
    let ipv4 = vec![InterfaceIpv4 {
        name: "eth0".to_string(),
        addresses: vec!["10.0.0.1".to_string(), "10.0.0.2".to_string()],
    }];
    let report = network_telemetry(&prev, &curr, &ipv4, Duration::from_secs(1));
    assert_eq!(report.len(), 2);
    assert_eq!((report[0].name.as_str(), report[0].rx_bps, report[0].tx_bps), ("eth0", 8000, 0));
    assert_eq!(report[0].ipv4, vec!["10.0.0.1", "10.0.0.2"]);
    assert_eq!((report[1].name.as_str(), report[1].rx_bps, report[1].tx_bps), ("wlan0", 0, 0));
    assert!(report[1].ipv4.is_empty());
}

// Cameras

#[test]
fn pixel_format_names() {
    assert_eq!(fourcc_text(*b"MJPG"), "MJPG");
    assert_eq!(fourcc_text(*b"Y8\0\0"), "Y8");
    assert_eq!(fourcc_text([0xff, 0, 10, 200]), "[255, 0, 10, 200]");
    assert_eq!(fourcc_text([0xc3, 0xa9, 0, 0]), "\u{e9}");
}

#[test]
fn discrete_sizes_of_a_camera() {
    let probed = vec![
        ProbedFormat {
            fourcc: *b"MJPG",
            sizes: Some(vec![
                FrameSize::Discrete { width: 640, height: 480 },
                FrameSize::Stepwise,
                FrameSize::Discrete { width: 1280, height: 720 },
            ]),
        },
        ProbedFormat { fourcc: *b"H264", sizes: None },
        ProbedFormat {
            fourcc: *b"YUYV",
            sizes: Some(vec![FrameSize::Discrete { width: 320, height: 240 }]),
        },
    ];
    let info = camera_info("/dev/video0", "Cam".to_string(), "uvc".to_string(), &probed);
    assert_eq!(info.device, "/dev/video0");
    assert_eq!(info.name.as_deref(), Some("Cam"));
    assert_eq!(info.driver.as_deref(), Some("uvc"));
    let sizes: Vec<(&str, u32, u32)> =
        info.formats.iter().map(|f| (f.fourcc.as_str(), f.width, f.height)).collect();
    assert_eq!(sizes, vec![("MJPG", 640, 480), ("MJPG", 1280, 720), ("YUYV", 320, 240)]);
}

// The system sensor

#[test]
fn system_sensor_name_is_system() {
    let cfg = SystemSensorConfig::default();
    let sensor = SystemSensor::new(&cfg, secs(5.0));
    assert_eq!(sensor.name(), "system");
    assert_eq!(sensor.interval_s, secs(5.0));
    assert_eq!(sensor.thermal_path, DEFAULT_THERMAL_PATH);
}

fn system_reading(rx_bytes: u64, thermal: Result<String, String>) -> SystemReading {
    SystemReading {
        cpu_usage_percent: Binary32 { bits: 12.5f32.to_bits() },
        ram: RamUsage { total_bytes: 100, used_bytes: 40, available_bytes: 60 },
        disks: vec![DiskUsage {
            mount_point: "/".to_string(),
            total_bytes: 1000,
            available_bytes: 10,
        }],
        load_avg: LoadAverage { one: secs(0.5), five: secs(0.25), fifteen: secs(0.1) },
        uptime_s: 77,
        counters: vec![counters("eth0", rx_bytes, 0)],
        ipv4: Vec::new(),
        cameras: vec![
            None,
            Some(CameraInfo { device: "/dev/video1".to_string(), ..CameraInfo::default() }),
            Some(CameraInfo { device: "/dev/video3".to_string(), ..CameraInfo::default() }),
        ],
        thermal,
    }
}

#[test]
fn system_sensor_writes_snapshot_to_context() {
    let cfg = SystemSensorConfig { enabled: true, interval_s: Some(secs(0.1)) };
    let mut sensor = SystemSensor::new(&cfg, secs(1.0));
    assert!(sensor.needs_priming());
    let first = sensor.sample(system_reading(1000, Ok("42500\n".to_string())), Duration::from_secs(10));
    assert!(!sensor.needs_priming());
    assert_eq!(first.telemetry.cpu_millidegrees_c, Some(42500));
    assert_eq!(first.telemetry.network_interfaces[0].rx_bps, 0);
    assert_eq!(first.telemetry.ram.used_bytes, 40);
    assert_eq!(first.telemetry.uptime_s, 77);
    assert_eq!(first.telemetry.disks.len(), 1);
    let devices: Vec<&str> = first.telemetry.cameras.iter().map(|c| c.device.as_str()).collect();
    assert_eq!(devices, vec!["/dev/video1", "/dev/video3"]);
    let next = Duration { secs: 10, nanos: 500_000_000 };
    let second = sensor.sample(system_reading(2000, Ok("43000".to_string())), next);
    assert_eq!(second.telemetry.network_interfaces[0].rx_bps, 16_000);
}

#[test]
fn thermal_fault_is_worth_one_warning() {
    let mut sensor = SystemSensor::new(&SystemSensorConfig::default(), secs(1.0));
    let first = sensor.sample(system_reading(0, not_found()), Duration::from_secs(1));
    assert!(first.warn);
    assert!(matches!(first.thermal_fault, Some(TempReadError::Io(_))));
    assert_eq!(first.telemetry.cpu_millidegrees_c, None);
    let second = sensor.sample(system_reading(0, Ok("x".to_string())), Duration::from_secs(2));
    assert!(!second.warn && second.thermal_fault.is_some());
    let third = sensor.sample(system_reading(0, Ok("1".to_string())), Duration::from_secs(3));
    assert!(!third.warn && third.thermal_fault.is_none());
}

// Interfaces

fn address(name: &str, octets: Option<[u8; 4]>) -> InterfaceAddress {
    InterfaceAddress { name: name.to_string(), ipv4: octets.map(|octets| Ipv4 { octets }) }
}

fn interfaces() -> Result<Vec<InterfaceAddress>, String> {
    Ok(vec![
        address("lo", None),
        address("lo", Some([127, 0, 0, 1])),
        address("eth0", Some([192, 0, 2, 1])),
        address("tun0", None),
        address("eth0", Some([192, 0, 2, 255])),
    ])
}

#[test]
fn resolve_loopback_returns_127_0_0_1() {
    let addr = resolve_ipv4(interfaces(), "lo").expect("loopback should always exist");
    assert_eq!(addr, Ipv4 { octets: [127, 0, 0, 1] });
}

#[test]
fn resolve_unknown_interface_returns_not_found() {
    let err = resolve_ipv4(interfaces(), "nonexistent9999").unwrap_err();
    assert!(
        matches!(err, ResolveIpError::InterfaceNotFound(_)),
        "expected InterfaceNotFound, got: {}",
        err.to_string()
    );
}

#[test]
fn resolve_errors_are_told_apart() {
    assert_eq!(
        resolve_ipv4(interfaces(), "tun0").unwrap_err().to_string(),
        "interface 'tun0' has no IPv4 address"
    );
    assert_eq!(
        resolve_ipv4(interfaces(), "wlan0").unwrap_err().to_string(),
        "interface 'wlan0' not found"
    );
    assert_eq!(
        resolve_ipv4(Err("EPERM".to_string()), "lo").unwrap_err().to_string(),
        "failed to enumerate interfaces: EPERM"
    );
    assert_eq!(resolve_ipv4(interfaces(), "eth0").unwrap().to_string(), "192.0.2.1");
}

#[test]
fn interface_map_gathers_all_addresses() {
    let map = ipv4_map_for_all_interfaces(&interfaces());
    assert_eq!(map.len(), 2);
    let eth0 = map.iter().find(|e| e.name == "eth0").unwrap();
    assert_eq!(eth0.addresses, vec!["192.0.2.1", "192.0.2.255"]);
    let lo = map.iter().find(|e| e.name == "lo").unwrap();
    assert_eq!(lo.addresses, vec!["127.0.0.1"]);
    assert!(ipv4_map_for_all_interfaces(&Err("EPERM".to_string())).is_empty());
}
