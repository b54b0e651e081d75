use ardeck::settings::ardeck_profile::{
    find_ardeck_profile, get_ardeck_profile, get_ardeck_profile_list, save_ardeck_profile,
    ArdeckProfileConfigItem,
};

fn profile(serial: &str, name: Option<&str>, baud: Option<u32>) -> ArdeckProfileConfigItem {
    ArdeckProfileConfigItem {
        serial_number: serial.to_string(),
        device_name: name.map(|n| n.to_string()),
        baud_rate: baud,
        description: None,
        mapping_preset: None,
    }
}

#[test]
fn profile_is_found_by_serial_number() {
    let profiles = vec![profile("A1", Some("left"), Some(9600)), profile("B2", None, None)];
    assert_eq!(find_ardeck_profile(&profiles, &"B2".to_string()), Some(1));
    assert_eq!(get_ardeck_profile(&profiles, &"A1".to_string()).unwrap().baud_rate, Some(9600));
    assert!(get_ardeck_profile(&profiles, &"C3".to_string()).is_none());
    assert_eq!(find_ardeck_profile(&Vec::new(), &"A1".to_string()), None);
}

#[test]
fn first_profile_of_a_serial_number_wins() {
    let profiles = vec![profile("A1", Some("first"), None), profile("A1", Some("second"), None)];
    assert_eq!(find_ardeck_profile(&profiles, &"A1".to_string()), Some(0));
    assert_eq!(
        get_ardeck_profile(&profiles, &"A1".to_string()).unwrap().device_name,
        Some("first".to_string())
    );
}

#[test]
fn profile_list_pairs_serial_number_and_name() {
    let profiles = vec![profile("A1", Some("left"), None), profile("B2", None, None)];
    assert_eq!(
        get_ardeck_profile_list(&profiles),
        vec![("A1".to_string(), Some("left".to_string())), ("B2".to_string(), None)]
    );
}

#[test]
fn saving_a_profile_replaces_or_appends() {
    let mut profiles = vec![profile("A1", Some("left"), None)];
    assert_eq!(save_ardeck_profile(&mut profiles, profile("B2", Some("right"), Some(19200))), 1);
    assert_eq!(profiles.len(), 2);
    assert_eq!(save_ardeck_profile(&mut profiles, profile("A1", Some("renamed"), Some(115200))), 0);
    assert_eq!(profiles.len(), 2);
    assert_eq!(profiles[0].device_name, Some("renamed".to_string()));
    assert_eq!(profiles[0].baud_rate, Some(115200));
    assert_eq!(profiles[1].serial_number, "B2");
}
