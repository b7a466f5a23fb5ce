use std::collections::HashMap;

use logi_forge::action::Action;
use logi_forge::capture::parse_capture_options;
use logi_forge::cli::take_optional_value;
use logi_forge::config::{
    AppSettings, Config, DeviceConfig, DeviceViewMode, KeyboardConfig, KeyboardLightingConfig,
    ProfileConfig, CURRENT_CONFIG_SCHEMA_VERSION,
};
use logi_forge::divert::media_bindings_from_config;
use logi_forge::linux::{
    capture_routing_from_config, keyboard_capture_routing_from_config, resolve_config_bindings,
    resolve_evdev_button_codes, resolve_evdev_keyboard_codes,
};
use logi_forge::model::{HidBus, HidNode};
use logi_forge::strmap::StrMap;
use logi_forge::sysfs::{parse_uevent, retain_logitech, sort_by_path};
use logi_forge::action::InputKey;
use logi_forge::linux::{linux_key_code, supported_virtual_key_codes};
use logi_forge::wire::response_matches;

/// The configuration the project ships as its example: one enabled MX
/// device with mouse bindings, one editor profile and F-row keyboard bindings.
fn example_config() -> Config {
    let mut bindings = StrMap::new();
    bindings.insert("Back".into(), Action::BrowserBack);
    bindings.insert("DpiToggle".into(), Action::NoAction);
    bindings.insert("Forward".into(), Action::BrowserForward);
    bindings.insert(
        "MiddleClick".into(),
        Action::HoldShortcut("Ctrl+Space".into()),
    );
    let mut profile_bindings = StrMap::new();
    profile_bindings.insert("Back".into(), Action::Copy);
    let mut profiles = StrMap::new();
    profiles.insert(
        "editor".into(),
        ProfileConfig {
            app_id: Some("/usr/bin/code".into()),
            executable: None,
            bindings: profile_bindings,
        },
    );
    let mut keyboard_bindings = StrMap::new();
    keyboard_bindings.insert("F1".into(), Action::MissionControl);
    keyboard_bindings.insert("F4".into(), Action::ShowDesktop);
    let mut devices = StrMap::new();
    devices.insert(
        "unit:6be9d300".into(),
        DeviceConfig {
            custom_name: "MX Master 3S".into(),
            enabled: true,
            dpi: Some(1600),
            dpi_presets: None,
            invert_scroll: None,
            scroll_resolution: None,
            bindings,
            profiles,
            action_ring: None,
            keyboard: Some(KeyboardConfig {
                fn_lock: Some(false),
                lighting: Some(KeyboardLightingConfig {
                    color: "18a06f".into(),
                    brightness: 72,
                }),
                bindings: keyboard_bindings,
            }),
            camera: None,
            light: None,
        },
    );
    Config {
        schema_version: CURRENT_CONFIG_SCHEMA_VERSION,
        selected_device: "unit:6be9d300".into(),
        app_settings: AppSettings {
            show_in_menu_bar: true,
            capture_mouse_events: true,
            device_view_mode: DeviceViewMode::Grid,
        },
        devices,
    }
}

#[test]
fn matches_normal_and_error_responses_but_ignores_events() {
    let request = [0x10, 0xff, 5, 0x21, 0, 0, 0];
    assert!(response_matches(&request, &[0x11, 0xff, 5, 0x21, 0, 0, 0]));
    assert!(response_matches(
        &request,
        &[0x11, 0xff, 0xff, 5, 0x21, 9, 0]
    ));
    assert!(!response_matches(&request, &[0x11, 0xff, 5, 0x20, 1, 2, 3]));
}

#[test]
fn resolves_portable_and_numeric_mouse_button_labels() {
    assert_eq!(resolve_evdev_button_codes("Back").unwrap(), vec![275, 278]);
    assert_eq!(resolve_evdev_button_codes("BTN_EXTRA").unwrap(), vec![276]);
    assert_eq!(resolve_evdev_button_codes("274").unwrap(), vec![274]);
    assert_eq!(resolve_evdev_button_codes("DpiToggle").unwrap(), vec![279]);
}

#[test]
fn builds_default_and_profile_routes_from_config() {
    let config = example_config();
    let routing = capture_routing_from_config(&config).unwrap();
    let bindings = routing.bindings.into_iter().collect::<HashMap<_, _>>();
    assert_eq!(bindings.get(&275), Some(&Action::BrowserBack));
    assert_eq!(bindings.get(&278), Some(&Action::BrowserBack));
    assert_eq!(bindings.get(&276), Some(&Action::BrowserForward));
    assert_eq!(
        bindings.get(&274),
        Some(&Action::HoldShortcut("Ctrl+Space".into()))
    );
    assert_eq!(bindings.get(&279), Some(&Action::NoAction));
    assert_eq!(routing.profiles.len(), 1);
    assert_eq!(routing.profiles[0].bindings.get(&275), Some(&Action::Copy));
}

#[test]
fn rejects_multiple_names_for_the_same_active_button() {
    let mut bindings = StrMap::new();
    bindings.insert("Back".into(), Action::Copy);
    bindings.insert("BTN_SIDE".into(), Action::Paste);
    assert!(resolve_config_bindings(&bindings).is_err());
}

#[test]
fn builds_f_row_capture_routes_from_keyboard_config() {
    let config = example_config();
    let routing = keyboard_capture_routing_from_config(&config).unwrap();
    let bindings = routing.bindings.into_iter().collect::<HashMap<_, _>>();
    assert_eq!(bindings.get(&59), Some(&Action::MissionControl));
    assert_eq!(bindings.get(&62), Some(&Action::ShowDesktop));
    assert!(routing.profiles.is_empty());
    assert_eq!(resolve_evdev_keyboard_codes("F12").unwrap(), vec![88]);
    assert!(resolve_evdev_keyboard_codes("F13").is_err());
}

#[test]
fn capture_options_load_config_and_allow_named_override() {
    let mut args: Vec<String> = vec![
        "/dev/input/event7".into(),
        "--config".into(),
        "example.toml".into(),
        "--bind".into(),
        "Back=Paste".into(),
    ];
    let config_path = take_optional_value(&mut args, "--config").unwrap();
    assert_eq!(config_path, Some("example.toml".to_owned()));
    let routing = capture_routing_from_config(&example_config()).unwrap();
    let options = parse_capture_options(&mut args, Some(routing)).unwrap();
    let bindings = options.bindings.into_iter().collect::<HashMap<_, _>>();
    assert_eq!(options.event_path, "/dev/input/event7");
    assert_eq!(bindings.get(&275), Some(&Action::Paste));
    assert_eq!(bindings.get(&276), Some(&Action::BrowserForward));
    assert_eq!(options.profiles.len(), 1);
}

#[test]
fn capture_options_reject_unknown_active_button_and_duplicate_config() {
    let mut args: Vec<String> = vec![
        "/dev/input/event7".into(),
        "--bind".into(),
        "GestureButton=Copy".into(),
    ];
    assert!(take_optional_value(&mut args, "--config").unwrap().is_none());
    assert!(parse_capture_options(&mut args, None).is_err());

    let mut args: Vec<String> = vec![
        "/dev/input/event7".into(),
        "--config".into(),
        "example.toml".into(),
        "--config".into(),
        "example.toml".into(),
    ];
    assert!(take_optional_value(&mut args, "--config").is_err());
}

#[test]
fn media_bindings_select_only_hidpp_capable_f_row_positions() {
    let config = example_config();
    let bindings = media_bindings_from_config(&config)
        .unwrap()
        .into_iter()
        .collect::<HashMap<_, _>>();
    assert_eq!(bindings.len(), 1);
    assert_eq!(bindings.get(&0x00d4), Some(&Action::ShowDesktop));
}

#[test]
fn parses_sysfs_inventory_and_filters_logitech() {
    let node = parse_uevent(
        "HID_ID=0003:0000046D:0000C548\nHID_NAME=Logitech USB Receiver\nHID_UNIQ=abc123\n",
        "/dev/hidraw7".into(),
    )
    .unwrap();
    assert_eq!(node.path, "/dev/hidraw7");
    assert_eq!(node.vendor_id, 0x046d);
    assert_eq!(node.product_id, 0xc548);
    assert_eq!(node.bus, HidBus::Usb);
    assert_eq!(node.name.as_deref(), Some("Logitech USB Receiver"));
    assert_eq!(node.serial.as_deref(), Some("abc123"));
    assert!(node.is_logitech());
    let other = HidNode {
        path: "/dev/hidraw8".into(),
        vendor_id: 0x1234,
        product_id: 1,
        bus: HidBus::Bluetooth,
        name: None,
        serial: None,
    };
    let kept = retain_logitech(vec![other, node.clone()]);
    assert_eq!(kept, vec![node]);
}

#[test]
fn uevent_without_hid_id_or_with_a_short_id_is_not_a_node() {
    assert_eq!(parse_uevent("HID_NAME=Mouse\n", "/dev/hidraw1".into()), None);
    assert_eq!(
        parse_uevent("HID_ID=0005:0000046D\n", "/dev/hidraw1".into()),
        None
    );
    assert_eq!(
        parse_uevent("HID_ID=0005:1046D:0001\n", "/dev/hidraw1".into()),
        None
    );
}

#[test]
fn uevent_keeps_the_last_value_strips_crlf_and_drops_an_empty_serial() {
    let node = parse_uevent(
        "HID_ID=0003:0000046D:0000C548\r\nHID_UNIQ=\nHID_ID=0005:0000046D:0000B023\nHID_NAME=a=b",
        "/dev/hidraw2".into(),
    )
    .unwrap();
    assert_eq!(node.bus, HidBus::Bluetooth);
    assert_eq!(node.product_id, 0xb023);
    assert_eq!(node.name.as_deref(), Some("a=b"));
    assert_eq!(node.serial, None);
    let other = parse_uevent("HID_ID=0019:1:2\n", "/dev/hidraw3".into()).unwrap();
    assert_eq!(other.bus, HidBus::Other(0x19));
}

#[test]
fn capture_options_take_every_argument_and_leave_the_rest_on_refusal() {
    let mut args: Vec<String> = vec![
        "--bind".into(),
        "275=Copy".into(),
        "/dev/input/event7".into(),
    ];
    let options = parse_capture_options(&mut args, None).unwrap();
    assert_eq!(options.event_path, "/dev/input/event7");
    assert!(args.is_empty());

    let mut args: Vec<String> = vec![
        "/dev/input/event7".into(),
        "--bind".into(),
        "275=NotAnAction".into(),
        "--bind".into(),
        "276=Copy".into(),
    ];
    assert!(parse_capture_options(&mut args, None).is_err());
    assert_eq!(args, vec!["/dev/input/event7".to_owned(), "--bind".into(), "276=Copy".into()]);

    let mut args: Vec<String> = vec!["/dev/input/event7".into(), "--bind".into()];
    assert!(parse_capture_options(&mut args, None).is_err());
    assert_eq!(args, vec!["/dev/input/event7".to_owned(), "--bind".into()]);
}

#[test]
fn maps_keys_to_linux_codes_and_declares_every_pressable_key() {
    assert_eq!(linux_key_code(InputKey::Back), 158);
    assert_eq!(linux_key_code(InputKey::Ctrl), 29);
    assert_eq!(linux_key_code(InputKey::Meta), 125);
    assert_eq!(linux_key_code(InputKey::Key('a')), 30);
    assert_eq!(linux_key_code(InputKey::Key('z')), 44);
    assert_eq!(linux_key_code(InputKey::Key('7')), 0);
    assert_eq!(linux_key_code(InputKey::ShowDesktop), 0);
    let codes = supported_virtual_key_codes();
    assert_eq!(codes.len(), 45);
    assert_eq!(&codes[..3], &[158, 159, 133]);
    assert!(codes.contains(&linux_key_code(InputKey::Key('q'))));
    assert!(!codes.contains(&0));
}

#[test]
fn orders_inventory_nodes_by_path() {
    let node = |path: &str| HidNode {
        path: path.into(),
        vendor_id: 0x046d,
        product_id: 0xc548,
        bus: HidBus::Usb,
        name: None,
        serial: None,
    };
    let sorted = sort_by_path(vec![node("/dev/hidraw3"), node("/dev/hidraw10"), node("/dev/hidraw1")]);
    let paths: Vec<&str> = sorted.iter().map(|n| n.path.as_str()).collect();
    assert_eq!(paths, vec!["/dev/hidraw1", "/dev/hidraw10", "/dev/hidraw3"]);
}
