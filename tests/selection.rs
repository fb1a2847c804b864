use sadb::{select_device, selection_prompt, AdbError, DeviceSelection};

fn ids(v: &[&str]) -> Vec<String> {
    v.iter().map(|s| s.to_string()).collect()
}

#[test]
fn test_device_selection_variants() {
    let single_device = DeviceSelection::Single("test-device".to_string());
    let multiple_devices =
        DeviceSelection::All(vec!["device1".to_string(), "device2".to_string()]);

    // Test that we can match on the variants
    match single_device {
        DeviceSelection::Single(device) => assert_eq!(device, "test-device"),
        DeviceSelection::All(_) => panic!("Expected Single variant"),
    }

    match multiple_devices {
        DeviceSelection::Single(_) => panic!("Expected All variant"),
        DeviceSelection::All(devices) => {
            assert_eq!(devices.len(), 2);
            assert!(devices.contains(&"device1".to_string()));
            assert!(devices.contains(&"device2".to_string()));
        }
    }
}

#[test]
fn test_device_selection_enum() {
    let single = DeviceSelection::Single("device1".to_string());
    let all = DeviceSelection::All(vec!["device1".to_string(), "device2".to_string()]);

    match single {
        DeviceSelection::Single(device) => assert_eq!(device, "device1"),
        _ => panic!("Expected Single variant"),
    }

    match all {
        DeviceSelection::All(devices) => {
            assert_eq!(devices.len(), 2);
            assert_eq!(devices[0], "device1");
            assert_eq!(devices[1], "device2");
        }
        _ => panic!("Expected All variant"),
    }
}

#[test]
fn test_device_selection_clone() {
    let first = DeviceSelection::Single("test-device".to_string());
    let cloned = first.clone();

    match (first, cloned) {
        (DeviceSelection::Single(orig), DeviceSelection::Single(clone)) => {
            assert_eq!(orig, clone);
        }
        _ => panic!("Clone should preserve variant type"),
    }
}

#[test]
fn test_device_selection_debug() {
    let single = DeviceSelection::Single("test".to_string());
    let all = DeviceSelection::All(vec!["dev1".to_string(), "dev2".to_string()]);

    let single_debug = format!("{:?}", single);
    let all_debug = format!("{:?}", all);

    assert!(single_debug.contains("Single"));
    assert!(single_debug.contains("test"));
    assert!(all_debug.contains("All"));
    assert!(all_debug.contains("dev1"));
    assert!(all_debug.contains("dev2"));
}

#[test]
fn no_device_gives_no_selection_and_no_prompt() {
    assert!(selection_prompt(&[], true).is_none());
    assert!(matches!(select_device(&[], true, Some(0)), Ok(None)));
}

#[test]
fn single_device_is_chosen_without_prompt() {
    let devices = ids(&["only-one"]);
    assert!(selection_prompt(&devices, true).is_none());
    match select_device(&devices, true, None) {
        Ok(Some(DeviceSelection::Single(d))) => assert_eq!(d, "only-one"),
        _ => panic!("expected the single device"),
    }
}

#[test]
fn prompt_lists_devices_and_all_choice() {
    let devices = ids(&["a", "b"]);
    assert_eq!(selection_prompt(&devices, true), Some(ids(&["a", "b", "ALL"])));
    assert_eq!(selection_prompt(&devices, false), Some(ids(&["a", "b"])));
}

#[test]
fn choice_past_devices_selects_all() {
    let devices = ids(&["a", "b", "c"]);
    match select_device(&devices, true, Some(3)) {
        Ok(Some(DeviceSelection::All(ds))) => assert_eq!(ds, devices),
        _ => panic!("expected every device"),
    }
}

#[test]
fn choice_index_selects_that_device() {
    let devices = ids(&["a", "b", "c"]);
    match select_device(&devices, true, Some(1)) {
        Ok(Some(DeviceSelection::Single(d))) => assert_eq!(d, "b"),
        _ => panic!("expected device b"),
    }
}

#[test]
fn chooser_failure_is_a_selection_error() {
    let devices = ids(&["a", "b"]);
    assert!(matches!(select_device(&devices, true, None), Err(AdbError::Selection)));
    assert!(matches!(select_device(&devices, false, Some(2)), Err(AdbError::Selection)));
}
