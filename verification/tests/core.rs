use logi_forge::action::{Action, InputCommand, InputKey};
use logi_forge::config::{
    ActionRingConfig, ActionRingLayout, ActionRingSlot, AppSettings, CameraConfig, CameraProfile,
    Config, DeviceConfig, DeviceViewMode, KeyboardConfig, KeyboardLightingConfig, LightConfig,
    ProfileConfig, ScrollResolution, CURRENT_CONFIG_SCHEMA_VERSION,
};
use logi_forge::model::RgbColor;
use logi_forge::router::{
    follow_foreground, record_foreground, ActionRouter, AppIdentity, AppProfile, ButtonEvent, Dispatch,
    ForegroundAppProvider,
};
use logi_forge::strmap::StrMap;
use logi_forge::ForgeError;

fn sample_config() -> Config {
    let mut slot_map = StrMap::new();
    slot_map.insert(
        "Top".into(),
        ActionRingSlot {
            action: Action::Copy,
            label: "Top".into(),
        },
    );
    slot_map.insert(
        "TopRight".into(),
        ActionRingSlot {
            action: Action::Paste,
            label: "TopRight".into(),
        },
    );

    let mut bindings = StrMap::new();
    bindings.insert("Back".into(), Action::BrowserBack);
    bindings.insert("Forward".into(), Action::BrowserForward);
    bindings.insert(
        "MiddleClick".into(),
        Action::HoldShortcut("Ctrl+Space".into()),
    );

    let mut keyboard_bindings = StrMap::new();
    keyboard_bindings.insert("F1".into(), Action::MissionControl);

    let mut devices = StrMap::new();
    let mut profile_bindings = StrMap::new();
    profile_bindings.insert("Back".into(), Action::Copy);
    let mut profiles = StrMap::new();
    profiles.insert(
        "editor".into(),
        ProfileConfig {
            app_id: Some("/usr/bin/editor".into()),
            executable: None,
            bindings: profile_bindings,
        },
    );
    devices.insert(
        "unit:6be9d300".into(),
        DeviceConfig {
            custom_name: "MX Master 3S".into(),
            enabled: true,
            dpi: Some(1600),
            dpi_presets: Some(vec![800, 1600, 2400, 3200]),
            invert_scroll: Some(false),
            scroll_resolution: Some(ScrollResolution::High),
            bindings,
            profiles,
            action_ring: Some(ActionRingConfig {
                default: ActionRingLayout { slots: slot_map },
            }),
            keyboard: Some(KeyboardConfig {
                fn_lock: Some(false),
                lighting: Some(KeyboardLightingConfig {
                    color: "18a06f".into(),
                    brightness: 72,
                }),
                bindings: keyboard_bindings,
            }),
            camera: Some(CameraConfig {
                profile: CameraProfile::VideoCall,
                zoom: 115,
                focus_auto: true,
                exposure_auto: true,
                brightness: 55,
                contrast: 48,
                saturation: 52,
                white_balance: 4600,
            }),
            light: Some(LightConfig {
                power: true,
                brightness: 64,
                temperature: 4200,
                auto_power: false,
            }),
        },
    );

    Config {
        schema_version: CURRENT_CONFIG_SCHEMA_VERSION,
        selected_device: "unit:6be9d300".into(),
        app_settings: AppSettings {
            show_in_menu_bar: true,
            capture_mouse_events: true,
            device_view_mode: DeviceViewMode::Grid,
        },
        devices,
    }
}

fn editor_profile(config: &mut Config) -> &mut ProfileConfig {
    let device_position = config.devices.position("unit:6be9d300").unwrap();
    let device = config.devices.value_mut(device_position);
    let profile_position = device.profiles.position("editor").unwrap();
    device.profiles.value_mut(profile_position)
}

#[test]
fn rejects_bad_schema_and_missing_device() {
    let mut config = sample_config();
    config.schema_version = 2;
    assert!(Config::validate(&config).is_err());

    let mut config = sample_config();
    config.selected_device = "missing".into();
    assert!(Config::validate(&config).is_err());
}

#[test]
fn accepts_default_settings_and_valid_device_shapes() {
    let config = sample_config();
    assert!(config.validate().is_ok());
    assert!(config.app_settings.show_in_menu_bar);
    assert!(config.app_settings.capture_mouse_events);
}

#[test]
fn rejects_profiles_without_a_target_or_bindings() {
    let mut config = sample_config();
    editor_profile(&mut config).app_id = None;
    assert!(config.validate().is_err());

    let mut config = sample_config();
    editor_profile(&mut config).bindings = StrMap::new();
    assert!(config.validate().is_err());
}

#[test]
fn parses_and_round_trips_shortcuts() {
    let action = Action::parse("CustomShortcut: Ctrl+Shift+P").unwrap();
    assert_eq!(action.to_string(), "CustomShortcut: Ctrl+Shift+P");
    assert_eq!(
        action.input_command().unwrap(),
        InputCommand::Chord(vec![InputKey::Ctrl, InputKey::Shift, InputKey::Key('p')])
    );
    assert_eq!(
        Action::parse("CustomShortcut:Ctrl+Shift+P").unwrap(),
        action
    );
}

#[test]
fn maps_builtin_actions() {
    assert_eq!(
        Action::Copy.input_command().unwrap(),
        InputCommand::Chord(vec![InputKey::Ctrl, InputKey::Key('c')])
    );
    assert_eq!(
        Action::BrowserBack.input_command().unwrap(),
        InputCommand::Tap(InputKey::Back)
    );
    assert!(Action::parse("Unknown").is_err());
    assert!(Action::parse("CustomShortcut: ").is_err());
    assert_eq!(
        Action::ShowDesktop.input_command().unwrap(),
        InputCommand::Chord(vec![InputKey::Meta, InputKey::Key('d')])
    );
}

#[test]
fn parses_rgb_colors_strictly() {
    assert_eq!(
        RgbColor::parse("#18A06f").unwrap(),
        RgbColor {
            red: 0x18,
            green: 0xa0,
            blue: 0x6f,
        }
    );
    assert!(RgbColor::parse("18a06").is_err());
    assert!(RgbColor::parse("18x06f").is_err());
}

#[test]
fn routes_taps_and_hold_lifecycle_without_touching_unmapped_buttons() {
    let router = ActionRouter::new(vec![
        (275, Action::BrowserBack),
        (276, Action::parse("HoldShortcut: Ctrl+Space").unwrap()),
    ]);
    assert_eq!(
        router
            .route(ButtonEvent {
                code: 275,
                value: 1
            })
            .unwrap(),
        Some(Dispatch::Tap(InputCommand::Tap(InputKey::Back)))
    );
    assert_eq!(
        router
            .route(ButtonEvent {
                code: 276,
                value: 1
            })
            .unwrap(),
        Some(Dispatch::HoldStart(InputCommand::HoldChord(vec![
            InputKey::Ctrl,
            InputKey::Space,
        ])))
    );
    assert_eq!(
        router
            .route(ButtonEvent {
                code: 276,
                value: 0
            })
            .unwrap(),
        Some(Dispatch::HoldEnd(InputCommand::HoldChord(vec![
            InputKey::Ctrl,
            InputKey::Space,
        ])))
    );
    assert_eq!(
        router
            .route(ButtonEvent {
                code: 274,
                value: 1
            })
            .unwrap(),
        None
    );
}

#[test]
fn selects_the_most_specific_foreground_profile_and_reverts_to_defaults() {
    let mut router = ActionRouter::with_profiles(
        vec![(275, Action::BrowserBack), (276, Action::BrowserForward)],
        vec![
            AppProfile::for_app("editor", "com.example.Editor", vec![(275, Action::Copy)]),
            AppProfile {
                id: "editor-exact".into(),
                app_id: Some("com.example.Editor".into()),
                executable: Some("editor".into()),
                bindings: [(275, Action::Paste)].into_iter().collect(),
            },
        ],
    );
    let app = AppIdentity {
        id: "com.example.Editor".into(),
        name: "Editor".into(),
        executable: Some("editor".into()),
    };
    assert_eq!(
        router.set_foreground_app(Some(app)),
        Some("editor-exact".into())
    );
    assert_eq!(router.active_profile_id(), Some("editor-exact".into()));
    assert_eq!(
        router
            .route(ButtonEvent {
                code: 275,
                value: 1
            })
            .unwrap(),
        Some(Dispatch::Tap(InputCommand::Chord(vec![
            InputKey::Ctrl,
            InputKey::Key('v'),
        ])))
    );
    router.set_foreground_app(None);
    assert_eq!(router.active_profile_id(), None);
    assert_eq!(router.foreground_app(), None);
    assert_eq!(
        router
            .route(ButtonEvent {
                code: 275,
                value: 1
            })
            .unwrap(),
        Some(Dispatch::Tap(InputCommand::Tap(InputKey::Back)))
    );
}

#[test]
fn a_stored_value_is_read_back_and_other_keys_keep_theirs() {
    let mut map: StrMap<u8> = StrMap::new();
    map.insert("Back".into(), 1);
    map.insert("Forward".into(), 2);
    map.insert("Back".into(), 3);
    assert_eq!(map.get("Back"), Some(&3));
    assert_eq!(map.get("Forward"), Some(&2));
    assert_eq!(map.get("Middle"), None);
    assert_eq!(map.len(), 2);
    assert_eq!(map.position("Forward"), Some(1));
}

struct FixedProvider(Option<AppIdentity>, bool);

impl ForegroundAppProvider for FixedProvider {
    fn current(&mut self) -> logi_forge::Result<Option<AppIdentity>> {
        if self.1 {
            Err(ForgeError::Timeout)
        } else {
            Ok(self.0.clone())
        }
    }
}

#[test]
fn foreground_reports_switch_profiles_and_failed_queries_change_nothing() {
    let editor = AppIdentity {
        id: "com.example.Editor".into(),
        name: "Editor".into(),
        executable: None,
    };
    let mut router = ActionRouter::with_profiles(
        vec![(275, Action::BrowserBack)],
        vec![AppProfile::for_app("editor", "com.example.Editor", vec![(275, Action::Copy)])],
    );
    assert_eq!(
        record_foreground(Ok(Some(editor.clone())), &mut router),
        Ok(Some(editor.clone()))
    );
    assert_eq!(router.active_profile_id(), Some("editor".into()));
    assert_eq!(
        record_foreground(Err(ForgeError::Timeout), &mut router),
        Err(ForgeError::Timeout)
    );
    assert_eq!(router.foreground_app(), Some(editor.clone()));
    let mut failing = FixedProvider(None, true);
    assert_eq!(follow_foreground(&mut failing, &mut router), Err(ForgeError::Timeout));
    assert_eq!(router.active_profile_id(), Some("editor".into()));
    let mut empty = FixedProvider(None, false);
    assert_eq!(follow_foreground(&mut empty, &mut router), Ok(None));
    assert_eq!(router.active_profile_id(), None);
}

#[test]
fn refused_shortcuts_report_their_first_unknown_token_in_lower_case() {
    assert_eq!(
        Action::CustomShortcut("Ctrl+F13+Q".into()).input_command(),
        Err(ForgeError::InvalidArgument("unsupported shortcut token f13".into()))
    );
    assert_eq!(
        Action::HoldShortcut("+ +".into()).input_command(),
        Err(ForgeError::InvalidArgument("shortcut cannot be empty".into()))
    );
    let router = ActionRouter::new(vec![(275, Action::HoldShortcut("Ctrl+Tab".into()))]);
    assert_eq!(
        router.route(ButtonEvent { code: 275, value: 1 }),
        Err(ForgeError::InvalidArgument("unsupported shortcut token tab".into()))
    );
}

#[test]
fn maps_keep_their_keys_in_ascending_order() {
    let mut map: StrMap<u8> = StrMap::new();
    map.insert("forward".into(), 1);
    map.insert("Back".into(), 2);
    map.insert("back".into(), 3);
    map.insert("Back".into(), 4);
    let keys: Vec<&str> = map.entries().iter().map(|(k, _)| k.as_str()).collect();
    assert_eq!(keys, vec!["Back", "back", "forward"]);
    assert_eq!(map.get("Back"), Some(&4));
}

#[test]
fn rgb_text_of_three_bytes_reads_back() {
    for (r, g, b) in [(0u8, 0u8, 0u8), (0x18, 0xa0, 0x6f), (255, 1, 171)] {
        let upper = format!("#{r:02X}{g:02x}{b:02x}");
        assert_eq!(RgbColor::parse(&upper).unwrap(), RgbColor { red: r, green: g, blue: b });
        let bare = format!("{r:02x}{g:02X}{b:02x}");
        assert_eq!(RgbColor::parse(&bare).unwrap(), RgbColor { red: r, green: g, blue: b });
    }
}
