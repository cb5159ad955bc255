use omafetch::probe::sysfs::boolish;

#[test]
fn maps_boolish_values() {
    assert_eq!(boolish("Y"), "on");
    assert_eq!(boolish("N"), "off");
}
