use std::collections::VecDeque;
use std::time::Duration;

use logi_forge::action::Action;
use logi_forge::agent::{
    apply_keyboard_config_with_transport, check_write_request, needs_apply, parse_device_index,
    inventory_key, scale_color, selected_keyboard, update_keyboard_setting, AgentState, ApplyOperation, SettingValue, WriteRefusal,
};
use logi_forge::client::HidTransport;
use logi_forge::config::{
    AppSettings, Config, DeviceConfig, DeviceViewMode, KeyboardConfig, KeyboardLightingConfig,
    CURRENT_CONFIG_SCHEMA_VERSION,
};
use logi_forge::model::{FnLockFeature, HidBus, HidNode, KeyboardLightingBackend, RgbColor};
use logi_forge::strmap::StrMap;
use logi_forge::wire::{DIRECT_DEVICE_INDEX, LONG_REPORT_ID};
use logi_forge::{ForgeError, Result};

#[derive(Default)]
struct FakeKeyboardTransport {
    fn_lock: bool,
    unsolicited: VecDeque<Vec<u8>>,
    writes: Vec<Vec<u8>>,
}

impl HidTransport for FakeKeyboardTransport {
    fn transact(&mut self, request: &[u8], _timeout: Duration) -> Result<Vec<u8>> {
        if request[2] == 0 {
            let feature = u16::from_be_bytes([request[4], request[5]]);
            let index = match feature {
                0x40a3 => 5,
                0x8070 => 6,
                _ => 0,
            };
            return Ok(short_response(request, [index, 0, 0]));
        }

        let feature = request[2];
        let function = request[3] >> 4;
        match (feature, function) {
            (5, 1) => {
                self.fn_lock = request[5] != 0;
                Ok(short_response(request, [0, 0, 0]))
            }
            (5, 0) => Ok(short_response(request, [0, u8::from(self.fn_lock), 1])),
            (6, 0) => Ok(short_response(request, [2, 0, 0])),
            (6, 3) if request[0] == LONG_REPORT_ID => Ok(request.to_vec()),
            _ => Err(ForgeError::InvalidResponse(format!(
                "fake keyboard received unexpected request {request:02x?}"
            ))),
        }
    }

    fn write_report(&mut self, report: &[u8]) -> Result<()> {
        self.writes.push(report.to_vec());
        Ok(())
    }

    fn read_report(&mut self, _timeout: Duration) -> Result<Vec<u8>> {
        self.unsolicited.pop_front().ok_or(ForgeError::Timeout)
    }
}

fn short_response(request: &[u8], payload: [u8; 3]) -> Vec<u8> {
    vec![
        request[0], request[1], request[2], request[3], payload[0], payload[1], payload[2],
    ]
}

/// The example configuration's selected keyboard: Fn-lock off and a green
/// color at 72% brightness.
fn example_config() -> Config {
    let mut keyboard_bindings = StrMap::new();
    keyboard_bindings.insert("F1".into(), Action::MissionControl);
    keyboard_bindings.insert("F4".into(), Action::ShowDesktop);
    let mut devices = StrMap::new();
    devices.insert(
        "unit:6be9d300".into(),
        DeviceConfig {
            custom_name: "MX Keys S".into(),
            enabled: true,
            dpi: None,
            dpi_presets: None,
            invert_scroll: None,
            scroll_resolution: None,
            bindings: StrMap::new(),
            profiles: StrMap::new(),
            action_ring: None,
            keyboard: Some(KeyboardConfig {
                fn_lock: Some(false),
                lighting: Some(KeyboardLightingConfig {
                    color: "18a06f".into(),
                    brightness: 72,
                }),
                bindings: keyboard_bindings,
            }),
            camera: None,
            light: None,
        },
    );
    Config {
        schema_version: CURRENT_CONFIG_SCHEMA_VERSION,
        selected_device: "unit:6be9d300".into(),
        app_settings: AppSettings {
            show_in_menu_bar: true,
            capture_mouse_events: true,
            device_view_mode: DeviceViewMode::Grid,
        },
        devices,
    }
}

fn keyboard_of(config: &Config) -> &KeyboardConfig {
    config
        .devices
        .get(&config.selected_device)
        .unwrap()
        .keyboard
        .as_ref()
        .unwrap()
}

#[test]
fn finds_the_keyboard_section_of_the_selected_device() {
    let mut config = example_config();
    assert_eq!(selected_keyboard(&config).unwrap().unwrap().fn_lock, Some(false));
    let position = config.devices.position("unit:6be9d300").unwrap();
    config.devices.value_mut(position).keyboard = None;
    assert!(selected_keyboard(&config).unwrap().is_none());
    config.selected_device = "missing".into();
    assert!(matches!(selected_keyboard(&config), Err(ForgeError::ConfigError(_))));
}

#[test]
fn keys_inventory_nodes_by_serial_or_route() {
    let mut node = HidNode {
        path: "/dev/hidraw3".into(),
        vendor_id: 0x046d,
        product_id: 0xc548,
        bus: HidBus::Usb,
        name: None,
        serial: None,
    };
    assert_eq!(inventory_key(&node), "hidraw:046d:c548:/dev/hidraw3");
    node.serial = Some("6be9d300".into());
    assert_eq!(inventory_key(&node), "serial:6be9d300");
}

#[test]
fn scales_rgb_without_overflow() {
    assert_eq!(
        scale_color(
            RgbColor {
                red: 255,
                green: 128,
                blue: 1,
            },
            50,
        ),
        RgbColor {
            red: 127,
            green: 64,
            blue: 0,
        }
    );
}

#[test]
fn validates_receiver_indices() {
    assert_eq!(parse_device_index(None).unwrap(), 0xff);
    assert_eq!(parse_device_index(Some("ff")).unwrap(), 0xff);
    assert_eq!(parse_device_index(Some("2")).unwrap(), 2);
    assert!(parse_device_index(Some("7")).is_err());
}

#[test]
fn updates_keyboard_settings_with_strict_types() {
    let mut config = example_config();
    update_keyboard_setting(&mut config, "fnLock", &SettingValue::Bool(true)).unwrap();
    update_keyboard_setting(&mut config, "lighting", &SettingValue::Text("#AABBCC".into())).unwrap();
    update_keyboard_setting(&mut config, "brightness", &SettingValue::Number(35)).unwrap();
    let keyboard = keyboard_of(&config);
    assert_eq!(keyboard.fn_lock, Some(true));
    assert_eq!(keyboard.lighting.as_ref().unwrap().color, "aabbcc");
    assert_eq!(keyboard.lighting.as_ref().unwrap().brightness, 35);
    assert!(update_keyboard_setting(&mut config, "brightness", &SettingValue::Number(101)).is_err());
    assert!(
        update_keyboard_setting(&mut config, "lighting", &SettingValue::Text("invalid".into()))
            .is_err()
    );
}

#[test]
fn refused_writes_name_their_field_and_leave_the_configuration_alone() {
    let mut config = example_config();
    let before = config.clone();
    assert!(matches!(
        update_keyboard_setting(&mut config, "fnLock", &SettingValue::Number(1)),
        Err(ForgeError::InvalidArgument(_))
    ));
    assert!(matches!(
        update_keyboard_setting(&mut config, "dpi", &SettingValue::Number(800)),
        Err(ForgeError::InvalidArgument(message)) if message == "native keyboard field dpi is not writable"
    ));
    assert!(matches!(
        update_keyboard_setting(&mut config, "brightness", &SettingValue::Other),
        Err(ForgeError::InvalidArgument(_))
    ));
    assert_eq!(config, before);
    config.selected_device = "missing".into();
    assert!(matches!(
        update_keyboard_setting(&mut config, "fnLock", &SettingValue::Bool(true)),
        Err(ForgeError::ConfigError(_))
    ));
}

#[test]
fn a_brightness_write_creates_white_lighting_and_a_color_write_keeps_full_brightness() {
    let mut config = example_config();
    let position = config.devices.position("unit:6be9d300").unwrap();
    config
        .devices
        .value_mut(position)
        .keyboard
        .as_mut()
        .unwrap()
        .lighting = None;
    update_keyboard_setting(&mut config, "brightness", &SettingValue::Number(40)).unwrap();
    let lighting = keyboard_of(&config).lighting.clone().unwrap();
    assert_eq!(lighting.color, "ffffff");
    assert_eq!(lighting.brightness, 40);

    let mut config = example_config();
    let position = config.devices.position("unit:6be9d300").unwrap();
    config
        .devices
        .value_mut(position)
        .keyboard
        .as_mut()
        .unwrap()
        .lighting = None;
    update_keyboard_setting(&mut config, "lighting", &SettingValue::Text("##0A0B0C".into()))
        .unwrap_err();
    update_keyboard_setting(&mut config, "lighting", &SettingValue::Text("#0A0B0C".into())).unwrap();
    let lighting = keyboard_of(&config).lighting.clone().unwrap();
    assert_eq!(lighting.color, "0a0b0c");
    assert_eq!(lighting.brightness, 100);
}

#[test]
fn fake_hardware_applies_keyboard_settings_through_hidpp() {
    let config = example_config();
    let operations = apply_keyboard_config_with_transport(
        &config,
        DIRECT_DEVICE_INDEX,
        FakeKeyboardTransport::default(),
    )
    .unwrap();
    assert_eq!(operations.len(), 2);
    assert_eq!(
        operations[0],
        ApplyOperation::FnLock {
            enabled: false,
            feature: FnLockFeature::MultiHost,
        }
    );
    assert_eq!(
        operations[1],
        ApplyOperation::Lighting {
            backend: KeyboardLightingBackend::Effects,
            zones_written: 2,
            brightness: 72,
        }
    );
}

#[test]
fn writes_are_refused_on_a_stale_revision_and_advance_it_otherwise() {
    let mut state = AgentState::new("loading", "disabled", 1);
    assert_eq!(state.revision, 0);
    assert_eq!(check_write_request(Some(0), state.revision, true, true), Ok(()));
    state.record_write("ready", "applied", 2);
    assert_eq!(state.revision, 1);
    assert_eq!(
        check_write_request(Some(0), state.revision, true, true),
        Err(WriteRefusal::RevisionConflict {
            expected: 0,
            actual: 1,
        })
    );
    assert_eq!(
        check_write_request(None, state.revision, false, true),
        Err(WriteRefusal::MissingPath)
    );
    assert_eq!(
        check_write_request(Some(1), state.revision, true, false),
        Err(WriteRefusal::MissingValue)
    );
}

#[test]
fn polling_advances_the_revision_only_when_the_fingerprint_changes() {
    let mut state = AgentState::new("loading", "disabled", 0);
    state.observe("a".into(), vec!["mouse"], "ready", Some("applied"), None, 1);
    assert_eq!(state.revision, 1);
    state.observe("a".into(), vec!["mouse"], "ready", None, None, 2);
    assert_eq!(state.revision, 1);
    assert_eq!(state.apply, "applied");
    state.observe("b".into(), vec!["mouse"], "ready", None, Some("inventory-error"), 3);
    assert_eq!(state.revision, 2);
    assert!(state.devices.is_empty());
    assert_eq!(state.apply, "inventory-error");

    let mut applied = String::new();
    assert!(needs_apply(&mut applied, "x"));
    assert!(!needs_apply(&mut applied, "x"));
    assert!(needs_apply(&mut applied, "y"));
}
