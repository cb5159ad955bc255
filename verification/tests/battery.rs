use omafetch::modules::battery::format_battery;
use omafetch::probe::sysfs::BatteryInfo;

#[test]
fn formats_battery_capacity_and_status() {
    assert_eq!(
        format_battery(BatteryInfo {
            capacity: Some(87),
            status: Some("charging".to_string())
        }),
        "87% charging"
    );
}
