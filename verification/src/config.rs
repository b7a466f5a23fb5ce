use vstd::prelude::*;

use crate::action::Action;
use crate::error::{ForgeError, Result};
use crate::model::{RgbColor, is_rgb_text};
use crate::strmap::{StrMap, has_key};
use crate::text::{decimal, message, str_eq, trim, trim_seq};

verus! {

pub const CURRENT_CONFIG_SCHEMA_VERSION: u32 = 1;

pub const DEVICE_NAME_LIMIT: usize = 80;

/// The strict configuration document.
#[derive(Clone, Debug, PartialEq, Eq)]
pub struct Config {
    pub schema_version: u32,
    pub selected_device: String,
    pub app_settings: AppSettings,
    pub devices: StrMap<DeviceConfig>,
}

#[derive(Clone, Debug, PartialEq, Eq, Structural)]
pub struct AppSettings {
    pub show_in_menu_bar: bool,
    pub capture_mouse_events: bool,
    pub device_view_mode: DeviceViewMode,
}

impl Default for AppSettings {
    fn default() -> (r: Self)
        ensures
            r.show_in_menu_bar && r.capture_mouse_events && r.device_view_mode == DeviceViewMode::Grid,
    {
        AppSettings {
            show_in_menu_bar: true,
            capture_mouse_events: true,
            device_view_mode: DeviceViewMode::Grid,
        }
    }
}

#[derive(Clone, Copy, Debug, PartialEq, Eq, Structural)]
pub enum DeviceViewMode {
    Grid,
    List,
}

impl Default for DeviceViewMode {
    fn default() -> (r: Self)
        ensures
            r == DeviceViewMode::Grid,
    {
        DeviceViewMode::Grid
    }
}

#[derive(Clone, Copy, Debug, PartialEq, Eq, Structural)]
pub enum ScrollResolution {
    High,
    Low,
}

#[derive(Clone, Copy, Debug, PartialEq, Eq, Structural)]
pub enum CameraProfile {
    Default,
    Streaming,
    VideoCall,
}

#[derive(Clone, Debug, PartialEq, Eq)]
pub struct DeviceConfig {
    pub custom_name: String,
    pub enabled: bool,
    pub dpi: Option<u16>,
    pub dpi_presets: Option<Vec<u16>>,
    pub invert_scroll: Option<bool>,
    pub scroll_resolution: Option<ScrollResolution>,
    pub bindings: StrMap<Action>,
    pub profiles: StrMap<ProfileConfig>,
    pub action_ring: Option<ActionRingConfig>,
    pub keyboard: Option<KeyboardConfig>,
    pub camera: Option<CameraConfig>,
    pub light: Option<LightConfig>,
}

#[derive(Clone, Debug, PartialEq, Eq)]
pub struct ProfileConfig {
    pub app_id: Option<String>,
    pub executable: Option<String>,
    pub bindings: StrMap<Action>,
}

#[derive(Clone, Debug, PartialEq, Eq)]
pub struct KeyboardConfig {
    pub fn_lock: Option<bool>,
    pub lighting: Option<KeyboardLightingConfig>,
    pub bindings: StrMap<Action>,
}

#[derive(Clone, Debug, PartialEq, Eq)]
pub struct KeyboardLightingConfig {
    pub color: String,
    pub brightness: u8,
}

#[derive(Clone, Debug, PartialEq, Eq)]
pub struct ActionRingConfig {
    pub default: ActionRingLayout,
}

#[derive(Clone, Debug, PartialEq, Eq)]
pub struct ActionRingLayout {
    pub slots: StrMap<ActionRingSlot>,
}

#[derive(Clone, Debug, PartialEq, Eq)]
pub struct ActionRingSlot {
    pub action: Action,
    pub label: String,
}

#[derive(Clone, Debug, PartialEq, Eq, Structural)]
pub struct CameraConfig {
    pub profile: CameraProfile,
    pub zoom: u16,
    pub focus_auto: bool,
    pub exposure_auto: bool,
    pub brightness: u8,
    pub contrast: u8,
    pub saturation: u8,
    pub white_balance: u16,
}

#[derive(Clone, Debug, PartialEq, Eq, Structural)]
pub struct LightConfig {
    pub power: bool,
    pub brightness: u8,
    pub temperature: u16,
    pub auto_power: bool,
}

/// A text that is empty once white space is trimmed.
pub open spec fn is_blank(s: Seq<char>) -> bool {
    trim_seq(s).len() == 0
}

/// The number of bytes of a text in UTF-8.
pub open spec fn utf8_len(s: Seq<char>) -> int {
    vstd::utf8::encode_utf8(s).len() as int
}

/// The names of the eight Actions Ring slots.
pub open spec fn is_ring_slot(name: Seq<char>) -> bool {
    ||| name == "Top"@
    ||| name == "TopRight"@
    ||| name == "Right"@
    ||| name == "BottomRight"@
    ||| name == "Bottom"@
    ||| name == "BottomLeft"@
    ||| name == "Left"@
    ||| name == "TopLeft"@
}

/// No binding name in the entries is blank.
pub open spec fn binding_names_ok<V>(entries: Seq<(String, V)>) -> bool {
    forall|i: int| 0 <= i < entries.len() ==> !is_blank((#[trigger] entries[i]).0@)
}

/// An optional target text that is present and not blank.
pub open spec fn names_target(t: Option<String>) -> bool {
    t matches Some(s) && !is_blank(s@)
}

/// A per-application profile: a non-blank id, a non-blank application id
/// or executable, and at least one binding, none with a blank name.
pub open spec fn profile_ok(id: Seq<char>, p: ProfileConfig) -> bool {
    &&& !is_blank(id)
    &&& names_target(p.app_id) || names_target(p.executable)
    &&& p.bindings.entry_seq().len() > 0
    &&& binding_names_ok(p.bindings.entry_seq())
}

/// A profile with a non-blank id and at least one binding, none with a
/// blank name, is refused for its target only when it names neither a
/// non-blank application id nor a non-blank executable: in particular a
/// profile that names only an executable is accepted.
pub proof fn lemma_profile_target_rule(id: Seq<char>, p: ProfileConfig)
    requires
        !is_blank(id),
        p.bindings.entry_seq().len() > 0,
        forall|i: int| 0 <= i < p.bindings.entry_seq().len() ==> !is_blank((#[trigger] p.bindings.entry_seq()[i]).0@),
    ensures
        profile_ok(id, p) <==> ((p.app_id matches Some(a) && !is_blank(a@)) || (p.executable matches Some(e)
            && !is_blank(e@))),
        p.app_id is None && (p.executable matches Some(e) && !is_blank(e@)) ==> profile_ok(id, p),
        p.executable is None && (p.app_id matches Some(a) && !is_blank(a@)) ==> profile_ok(id, p),
        p.app_id is None && p.executable is None ==> !profile_ok(id, p),
{
}

/// A profile is accepted exactly when its id is not blank, it names a
/// non-blank application id or a non-blank executable (either is enough),
/// and it has at least one binding, none with a blank name.
pub proof fn lemma_profile_rules(id: Seq<char>, p: ProfileConfig)
    ensures
        profile_ok(id, p) <==> {
            &&& !is_blank(id)
            &&& (p.app_id matches Some(a) && !is_blank(a@)) || (p.executable matches Some(e) && !is_blank(e@))
            &&& p.bindings.entry_seq().len() > 0
            &&& forall|i: int| 0 <= i < p.bindings.entry_seq().len() ==> !is_blank((#[trigger] p.bindings.entry_seq()[i]).0@)
        },
{
}

pub open spec fn profiles_ok(entries: Seq<(String, ProfileConfig)>) -> bool {
    forall|i: int| 0 <= i < entries.len() ==> profile_ok((#[trigger] entries[i]).0@, entries[i].1)
}

/// An Actions Ring with at least one slot, known slot names and non-blank labels.
pub open spec fn action_ring_ok(ring: ActionRingConfig) -> bool {
    let slots = ring.default.slots.entry_seq();
    &&& slots.len() > 0
    &&& forall|i: int| 0 <= i < slots.len() ==> is_ring_slot((#[trigger] slots[i]).0@)
    &&& forall|i: int| 0 <= i < slots.len() ==> !is_blank((#[trigger] slots[i]).1.label@)
}

pub open spec fn keyboard_ok(k: KeyboardConfig) -> bool {
    &&& binding_names_ok(k.bindings.entry_seq())
    &&& k.lighting matches Some(l) ==> l.brightness <= 100 && is_rgb_text(l.color@)
}

pub open spec fn camera_ok(c: CameraConfig) -> bool {
    &&& 100 <= c.zoom <= 500
    &&& c.brightness <= 100 && c.contrast <= 100 && c.saturation <= 100
    &&& 2800 <= c.white_balance <= 6500
}

pub open spec fn light_ok(l: LightConfig) -> bool {
    l.brightness <= 100 && 2700 <= l.temperature <= 6500
}

/// The rules one configured device must meet.
pub open spec fn device_ok(key: Seq<char>, d: DeviceConfig) -> bool {
    &&& !is_blank(key)
    &&& !is_blank(d.custom_name@) && utf8_len(d.custom_name@) <= 80
    &&& d.dpi matches Some(v) ==> 200 <= v <= 8000
    &&& d.dpi_presets matches Some(p) ==> p@.len() > 0 && forall|i: int|
        0 <= i < p@.len() ==> 200 <= #[trigger] p@[i] <= 8000
    &&& binding_names_ok(d.bindings.entry_seq())
    &&& profiles_ok(d.profiles.entry_seq())
    &&& d.action_ring matches Some(r) ==> action_ring_ok(r)
    &&& d.keyboard matches Some(k) ==> keyboard_ok(k)
    &&& d.camera matches Some(c) ==> camera_ok(c)
    &&& d.light matches Some(l) ==> light_ok(l)
}

pub open spec fn devices_ok(entries: Seq<(String, DeviceConfig)>) -> bool {
    forall|i: int| 0 <= i < entries.len() ==> device_ok((#[trigger] entries[i]).0@, entries[i].1)
}

/// The rules a whole configuration must meet: the current schema version,
/// a non-blank selected device that is among the configured devices, and
/// every device valid.
pub open spec fn config_ok(c: Config) -> bool {
    &&& c.schema_version == CURRENT_CONFIG_SCHEMA_VERSION
    &&& !is_blank(c.selected_device@)
    &&& c.devices.entry_seq().len() > 0
    &&& has_key(c.devices.entry_seq(), c.selected_device@)
    &&& devices_ok(c.devices.entry_seq())
}

fn config_error(text: &str) -> (e: ForgeError)
    ensures
        e is ConfigError,
{
    ForgeError::ConfigError(text.to_owned())
}

fn device_error(device_key: &str, detail: &str) -> (e: ForgeError)
    ensures
        e is ConfigError,
{
    let mut m = message("device ", device_key);
    m.append(" ");
    m.append(detail);
    ForgeError::ConfigError(m)
}

fn is_blank_text(s: &str) -> (r: bool)
    ensures
        r == is_blank(s@),
{
    trim(s).unicode_len() == 0
}

fn check_binding_names<V>(device_key: &str, entries: &Vec<(String, V)>, what: &str) -> (r: Result<()>)
    ensures
        r is Ok <==> binding_names_ok(entries@),
        r matches Err(e) ==> e is ConfigError,
{
    let mut i: usize = 0;
    while i < entries.len()
        invariant
            0 <= i <= entries@.len(),
            forall|j: int| 0 <= j < i ==> !is_blank((#[trigger] entries@[j]).0@),
        decreases entries@.len() - i,
    {
        if is_blank_text(entries[i].0.as_str()) {
            return Err(device_error(device_key, what));
        }
        i = i + 1;
    }
    Ok(())
}

fn is_ring_slot_name(name: &str) -> (r: bool)
    ensures
        r == is_ring_slot(name@),
{
    str_eq(name, "Top") || str_eq(name, "TopRight") || str_eq(name, "Right") || str_eq(
        name,
        "BottomRight",
    ) || str_eq(name, "Bottom") || str_eq(name, "BottomLeft") || str_eq(name, "Left")
        || str_eq(name, "TopLeft")
}

fn names_target_exec(t: &Option<String>) -> (r: bool)
    ensures
        r == names_target(*t),
{
    match t {
        Some(s) => !is_blank_text(s.as_str()),
        None => false,
    }
}

/// Checks the per-application profiles of one device.
pub fn validate_profiles(device_key: &str, profiles: &StrMap<ProfileConfig>) -> (r: Result<()>)
    ensures
        r is Ok <==> profiles_ok(profiles.entry_seq()),
        r matches Err(e) ==> e is ConfigError,
{
    let entries = profiles.entries();
    let mut i: usize = 0;
    while i < entries.len()
        invariant
            entries@ == profiles.entry_seq(),
            0 <= i <= entries@.len(),
            forall|j: int| 0 <= j < i ==> profile_ok((#[trigger] entries@[j]).0@, entries@[j].1),
        decreases entries@.len() - i,
    {
        let id = entries[i].0.as_str();
        let profile = &entries[i].1;
        if is_blank_text(id) {
            return Err(device_error(device_key, "contains an empty profile id"));
        }
        if !names_target_exec(&profile.app_id) && !names_target_exec(&profile.executable) {
            return Err(device_error(device_key, "profile requires app_id or executable"));
        }
        if profile.bindings.is_empty() {
            return Err(device_error(device_key, "profile requires at least one binding"));
        }
        check_binding_names(
            device_key,
            profile.bindings.entries(),
            "profile contains an empty binding name",
        )?;
        i = i + 1;
    }
    Ok(())
}

/// Checks the Actions Ring of one device.
pub fn validate_action_ring(device_key: &str, action_ring: &ActionRingConfig) -> (r: Result<()>)
    ensures
        r is Ok <==> action_ring_ok(*action_ring),
        r matches Err(e) ==> e is ConfigError,
{
    let slots = action_ring.default.slots.entries();
    if slots.len() == 0 {
        return Err(device_error(device_key, "action_ring must contain at least one slot"));
    }
    let mut i: usize = 0;
    while i < slots.len()
        invariant
            slots@ == action_ring.default.slots.entry_seq(),
            0 <= i <= slots@.len(),
            forall|j: int| 0 <= j < i ==> is_ring_slot((#[trigger] slots@[j]).0@),
        decreases slots@.len() - i,
    {
        if !is_ring_slot_name(slots[i].0.as_str()) {
            let mut m = message("action_ring slot ", slots[i].0.as_str());
            m.append(" is unknown");
            return Err(device_error(device_key, m.as_str()));
        }
        i = i + 1;
    }
    let mut i: usize = 0;
    while i < slots.len()
        invariant
            slots@ == action_ring.default.slots.entry_seq(),
            0 <= i <= slots@.len(),
            forall|j: int| 0 <= j < slots@.len() ==> is_ring_slot((#[trigger] slots@[j]).0@),
            forall|j: int| 0 <= j < i ==> !is_blank((#[trigger] slots@[j]).1.label@),
        decreases slots@.len() - i,
    {
        if is_blank_text(slots[i].1.label.as_str()) {
            return Err(device_error(device_key, "action_ring slot labels cannot be empty"));
        }
        i = i + 1;
    }
    Ok(())
}

fn dpi_in_range(v: u16) -> (r: bool)
    ensures
        r == (200 <= v <= 8000),
{
    200 <= v && v <= 8000
}

/// Checks the fields of one configured device.
pub fn validate_device(device_key: &str, device: &DeviceConfig) -> (r: Result<()>)
    ensures
        r is Ok <==> device_ok(device_key@, *device),
        r matches Err(e) ==> e is ConfigError,
{
    if is_blank_text(device_key) {
        return Err(config_error("device key cannot be empty"));
    }
    if is_blank_text(device.custom_name.as_str()) || device.custom_name.as_str().as_bytes().len()
        > DEVICE_NAME_LIMIT {
        return Err(device_error(device_key, "custom_name must be 1..=80 characters"));
    }
    if let Some(dpi) = device.dpi {
        if !dpi_in_range(dpi) {
            let mut m = message("dpi ", decimal(dpi as u64).as_str());
            m.append(" is out of range");
            return Err(device_error(device_key, m.as_str()));
        }
    }
    if let Some(presets) = &device.dpi_presets {
        if presets.len() == 0 {
            return Err(device_error(device_key, "dpi_presets cannot be empty"));
        }
        let mut i: usize = 0;
        while i < presets.len()
            invariant
                device.dpi_presets is Some,
                device.dpi_presets->0@ == presets@,
                0 <= i <= presets@.len(),
                forall|j: int| 0 <= j < i ==> 200 <= #[trigger] presets@[j] <= 8000,
            decreases presets@.len() - i,
        {
            if !dpi_in_range(presets[i]) {
                assert(!(200 <= presets@[i as int] <= 8000));
                return Err(device_error(device_key, "dpi_presets contain out-of-range values"));
            }
            i = i + 1;
        }
    }
    check_binding_names(device_key, device.bindings.entries(), "contains an empty binding name")?;
    validate_profiles(device_key, &device.profiles)?;
    if let Some(action_ring) = &device.action_ring {
        validate_action_ring(device_key, action_ring)?;
    }
    if let Some(keyboard) = &device.keyboard {
        check_binding_names(
            device_key,
            keyboard.bindings.entries(),
            "contains an empty keyboard binding name",
        )?;
        if let Some(lighting) = &keyboard.lighting {
            if lighting.brightness > 100 {
                return Err(
                    device_error(device_key, "keyboard lighting brightness must be 0..=100"),
                );
            }
            if RgbColor::parse(lighting.color.as_str()).is_err() {
                return Err(device_error(device_key, "keyboard lighting color must be RRGGBB"));
            }
        }
    }
    if let Some(camera) = &device.camera {
        if !(100 <= camera.zoom && camera.zoom <= 500) {
            return Err(device_error(device_key, "camera zoom is out of range"));
        }
        if camera.brightness > 100 || camera.contrast > 100 || camera.saturation > 100 {
            return Err(device_error(device_key, "camera values must be 0..=100"));
        }
        if !(2800 <= camera.white_balance && camera.white_balance <= 6500) {
            return Err(device_error(device_key, "camera white_balance is out of range"));
        }
    }
    if let Some(light) = &device.light {
        if light.brightness > 100 || !(2700 <= light.temperature && light.temperature <= 6500) {
            return Err(device_error(device_key, "light values are out of range"));
        }
    }
    Ok(())
}

impl Config {
    /// Validates schema version, selected device ownership, and device fields.
    pub fn validate(&self) -> (r: Result<()>)
        ensures
            r is Ok <==> config_ok(*self),
            r matches Err(e) ==> e is ConfigError,
    {
        if self.schema_version != CURRENT_CONFIG_SCHEMA_VERSION {
            return Err(
                ForgeError::ConfigError(
                    message(
                        "unsupported schema version ",
                        decimal(self.schema_version as u64).as_str(),
                    ),
                ),
            );
        }
        if is_blank_text(self.selected_device.as_str()) {
            return Err(config_error("selected_device cannot be empty"));
        }
        if self.devices.is_empty() {
            return Err(config_error("configuration must define at least one device"));
        }
        let selected = match self.devices.get(self.selected_device.as_str()) {
            Some(device) => device,
            None => {
                let mut m = message("selected_device ", self.selected_device.as_str());
                m.append(" is missing from devices");
                return Err(ForgeError::ConfigError(m));
            },
        };
        proof {
            crate::strmap::lemma_lookup_entry(self.devices.entry_seq(), self.selected_device@);
        }
        validate_device(self.selected_device.as_str(), selected)?;
        let entries = self.devices.entries();
        let mut i: usize = 0;
        while i < entries.len()
            invariant
                entries@ == self.devices.entry_seq(),
                0 <= i <= entries@.len(),
                forall|j: int| 0 <= j < i ==> device_ok((#[trigger] entries@[j]).0@, entries@[j].1),
            decreases entries@.len() - i,
        {
            validate_device(entries[i].0.as_str(), &entries[i].1)?;
            i = i + 1;
        }
        Ok(())
    }
}

} // verus!
