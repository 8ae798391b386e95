use raixbar::system::{
    battery_status, cpu_stat_fits, cpu_usage, network_status, pactl_volume, ram_usage,
    read_cpu_stat, NetInterface, PowerSupply,
};

const STAT: &str = "cpu  10 20 30 40 50 60 70\ncpu0 1 2 3 4 5\nintr 1 2 3\n";

#[test]
fn cpu_stat_totals() {
    assert!(cpu_stat_fits(STAT));
    assert_eq!(read_cpu_stat(STAT), Some((280, 90)));
}

#[test]
fn cpu_stat_skips_words_that_are_not_numbers() {
    assert_eq!(read_cpu_stat("cpu 1 x 2 3 4 5\n"), Some((15, 9)));
}

#[test]
fn cpu_stat_needs_five_numbers() {
    assert_eq!(read_cpu_stat("cpu 1 2 3 4\n"), None);
}

#[test]
fn cpu_stat_needs_the_total_line() {
    assert_eq!(read_cpu_stat("cpu0 1 2 3 4 5\n"), None);
    assert_eq!(read_cpu_stat(""), None);
}

#[test]
fn cpu_stat_first_total_line_counts() {
    assert_eq!(read_cpu_stat("cpu 1 1 1 1 1\ncpu 2 2 2 2 2\n"), Some((5, 2)));
}

#[test]
fn cpu_stat_that_overflows_does_not_fit() {
    let text = "cpu 18446744073709551615 1 0 0 0\n";
    assert!(!cpu_stat_fits(text));
    assert!(cpu_stat_fits("cpu 18446744073709551615 0 0 0 0\n"));
    assert!(cpu_stat_fits("cpu 18446744073709551615 1 0 0\n"));
}

#[test]
fn first_cpu_reading_has_no_usage() {
    assert_eq!(cpu_usage(None, (100, 50)), None);
}

#[test]
fn cpu_usage_between_readings() {
    assert_eq!(cpu_usage(Some((100, 50)), (200, 80)), Some((70, 100)));
}

#[test]
fn cpu_usage_without_elapsed_time() {
    assert_eq!(cpu_usage(Some((100, 50)), (100, 60)), None);
    assert_eq!(cpu_usage(Some((100, 50)), (90, 40)), None);
}

#[test]
fn cpu_usage_saturates() {
    assert_eq!(cpu_usage(Some((100, 50)), (110, 200)), Some((0, 10)));
    assert_eq!(cpu_usage(Some((100, 50)), (110, 40)), Some((10, 10)));
}

#[test]
fn ram_usage_percent() {
    assert_eq!(ram_usage("MemTotal: 1000 kB\nMemFree: 10 kB\nMemAvailable: 250 kB\n"), "75");
    assert_eq!(ram_usage("MemTotal:       3 kB\nMemAvailable:   1 kB\n"), "66");
}

#[test]
fn ram_usage_without_total() {
    assert_eq!(ram_usage(""), "0");
    assert_eq!(ram_usage("MemAvailable: 5 kB\n"), "0");
    assert_eq!(ram_usage("MemTotal: x\nMemAvailable: 5 kB\n"), "0");
}

#[test]
fn ram_usage_without_available_is_full() {
    assert_eq!(ram_usage("MemTotal: 400 kB\n"), "100");
}

#[test]
fn ram_usage_more_available_than_total() {
    assert_eq!(ram_usage("MemTotal: 400 kB\nMemAvailable: 800 kB\n"), "0");
}

#[test]
fn ram_usage_last_field_wins() {
    assert_eq!(ram_usage("MemTotal: 100\nMemTotal: 200\nMemAvailable: 50\n"), "75");
}

#[test]
fn ram_usage_saturating_product() {
    let text = "MemTotal: 18446744073709551615\nMemAvailable: 0\n";
    assert_eq!(ram_usage(text), "1");
}

fn iface(name: &str, state: &str, wireless: bool) -> NetInterface {
    NetInterface { name: name.to_string(), operstate: state.to_string(), wireless }
}

#[test]
fn network_without_directory_is_offline() {
    assert_eq!(network_status(None), "offline");
}

#[test]
fn network_prefers_wireless() {
    let list = vec![
        iface("lo", "up", false),
        iface("eth0", "up\n", false),
        iface("wlan0", "up\n", true),
        iface("eth1", "down\n", false),
    ];
    assert_eq!(network_status(Some(&list)), "wlan0");
}

#[test]
fn network_falls_back_to_ethernet() {
    let list = vec![iface("eth0", "up\n", false), iface("wlan0", "dormant\n", true)];
    assert_eq!(network_status(Some(&list)), "eth0");
}

#[test]
fn network_last_up_interface_wins() {
    let list = vec![iface("eth0", "up", false), iface("eth1", "up", false)];
    assert_eq!(network_status(Some(&list)), "eth1");
}

#[test]
fn network_nothing_up() {
    let list = vec![iface("lo", "up", false), iface("eth0", "", false)];
    assert_eq!(network_status(Some(&list)), "offline");
    assert_eq!(network_status(Some(&vec![])), "offline");
}

fn supply(name: &str, capacity: Option<&str>) -> PowerSupply {
    PowerSupply { name: name.to_string(), capacity: capacity.map(|c| c.to_string()) }
}

#[test]
fn battery_capacity() {
    let list = vec![supply("AC", None), supply("BAT0", Some(" 87\n"))];
    assert_eq!(battery_status(Some(&list)), "87");
}

#[test]
fn battery_unreadable_capacity_is_skipped() {
    let list = vec![supply("BAT0", None), supply("BAT1", Some("42\n"))];
    assert_eq!(battery_status(Some(&list)), "42");
}

#[test]
fn battery_missing() {
    assert_eq!(battery_status(None), "--");
    assert_eq!(battery_status(Some(&vec![supply("AC", Some("1"))])), "--");
}

#[test]
fn pactl_volume_percent() {
    let text = "Volume: front-left: 32768 /  50% / -18.06 dB,   front-right: 32768 /  51% / -18.06 dB\n";
    assert_eq!(pactl_volume(text), Some(50));
}

#[test]
fn pactl_volume_missing() {
    assert_eq!(pactl_volume("no volume here"), None);
    assert_eq!(pactl_volume("x% -3% 12%"), Some(12));
    assert_eq!(pactl_volume(""), None);
    assert_eq!(pactl_volume("+7%"), Some(7));
}
