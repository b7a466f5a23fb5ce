use vstd::prelude::*;

use crate::client::{HidTransport, HidppClient, WireEvent, Step, ErrorSpec, failed, done, error_fits, spec_keyboard_color, spec_set_fn_lock};
use crate::cli::{device_index_from, index_outcome};
use crate::config::{Config, DeviceConfig, KeyboardConfig, KeyboardLightingConfig, config_ok};
use crate::error::{ForgeError, Result};
use crate::model::{FnLockFeature, HidNode, KeyboardLightingBackend, RgbColor, is_rgb_text, spec_rgb};
use crate::strmap::{first_index_of, has_key, lookup};
use crate::text::{ascii_lower, hex4, hex4_seq, message, str_eq, to_ascii_lowercase};
use crate::wire::DIRECT_DEVICE_INDEX;

verus! {

/// A channel scaled to `brightness` percent; a result past 255 (a
/// brightness above 100) reads as 0.
pub open spec fn scale_channel(channel: u8, brightness: u8) -> u8 {
    let v = channel as int * brightness as int / 100;
    if v <= 255 {
        v as u8
    } else {
        0
    }
}

fn scale_channel_exec(channel: u8, brightness: u8) -> (r: u8)
    ensures
        r == scale_channel(channel, brightness),
        brightness <= 100 ==> r <= channel,
{
    let c = channel as u16;
    let b = brightness as u16;
    assert(c * b <= 65025) by (nonlinear_arith)
        requires
            c <= 255,
            b <= 255,
    ;
    let v: u16 = c * b / 100;
    assert(b <= 100 ==> c * b / 100 <= c) by (nonlinear_arith)
        requires
            c <= 255,
    ;
    if v <= 255 {
        v as u8
    } else {
        0
    }
}

/// Scales every channel of a color to `brightness` percent, without overflow.
pub fn scale_color(color: RgbColor, brightness: u8) -> (r: RgbColor)
    ensures
        r == (RgbColor {
            red: scale_channel(color.red, brightness),
            green: scale_channel(color.green, brightness),
            blue: scale_channel(color.blue, brightness),
        }),
        brightness <= 100 ==> r.red <= color.red && r.green <= color.green && r.blue <= color.blue,
{
    RgbColor {
        red: scale_channel_exec(color.red, brightness),
        green: scale_channel_exec(color.green, brightness),
        blue: scale_channel_exec(color.blue, brightness),
    }
}

/// The device index the agent owns: a direct device when none is named.
pub fn parse_device_index(value: Option<&str>) -> (r: Result<u8>)
    ensures
        value is None ==> r == Ok::<u8, ForgeError>(DIRECT_DEVICE_INDEX),
        value matches Some(v) ==> index_outcome(r, v@),
{
    match value {
        None => Ok(DIRECT_DEVICE_INDEX),
        Some(v) => device_index_from(v),
    }
}

/// A value written to a native keyboard setting, as a JSON request carries it.
#[derive(Clone, Debug, PartialEq, Eq)]
pub enum SettingValue {
    Bool(bool),
    Text(String),
    /// A non-negative integer.
    Number(u64),
    /// Any other JSON value.
    Other,
}

/// `s` without its leading `#` characters.
pub open spec fn strip_all_hash(s: Seq<char>) -> Seq<char>
    decreases s.len(),
{
    if s.len() > 0 && s[0] == '#' {
        strip_all_hash(s.drop_first())
    } else {
        s
    }
}

/// How a written color is stored: without leading `#`, in lower case.
pub open spec fn stored_color(s: Seq<char>) -> Seq<char> {
    strip_all_hash(s).map_values(|c: char| ascii_lower(c))
}

/// The brightness a newly written color keeps: the current one, or 100.
pub open spec fn kept_brightness(before: Option<KeyboardLightingConfig>) -> u8 {
    match before {
        Some(l) => l.brightness,
        None => 100,
    }
}

/// The color a newly written brightness keeps: the current one, or `ffffff`.
pub open spec fn kept_color(before: Option<KeyboardLightingConfig>) -> Seq<char> {
    match before {
        Some(l) => l.color@,
        None => "ffffff"@,
    }
}

/// The lighting after a color write of `c`.
pub open spec fn color_written(before: Option<KeyboardLightingConfig>, after: Option<KeyboardLightingConfig>, c: Seq<char>) -> bool {
    match after {
        Some(l) => l.color@ == stored_color(c) && l.brightness == kept_brightness(before),
        None => false,
    }
}

/// The lighting after a brightness write of `n`.
pub open spec fn brightness_written(before: Option<KeyboardLightingConfig>, after: Option<KeyboardLightingConfig>, n: u64) -> bool {
    match after {
        Some(l) => l.brightness == n && l.color@ == kept_color(before),
        None => false,
    }
}

/// The keyboard section after a write of `value` to the field `path`
/// (`fnLock`, `lighting` or `brightness`); `false` when the write is refused.
pub open spec fn keyboard_written(
    before: KeyboardConfig,
    after: KeyboardConfig,
    path: Seq<char>,
    value: SettingValue,
) -> bool {
    &&& after.bindings == before.bindings
    &&& if path == "fnLock"@ {
        &&& after.lighting == before.lighting
        &&& match value {
            SettingValue::Bool(b) => after.fn_lock == Some(b),
            _ => false,
        }
    } else if path == "lighting"@ {
        &&& after.fn_lock == before.fn_lock
        &&& match value {
            SettingValue::Text(c) => is_rgb_text(c@) && color_written(before.lighting, after.lighting, c@),
            _ => false,
        }
    } else if path == "brightness"@ {
        &&& after.fn_lock == before.fn_lock
        &&& match value {
            SettingValue::Number(n) => n <= 100 && brightness_written(before.lighting, after.lighting, n),
            _ => false,
        }
    } else {
        false
    }
}

/// Whether a write of `value` to `path` is accepted by its field.
pub open spec fn write_accepted(path: Seq<char>, value: SettingValue) -> bool {
    match value {
        SettingValue::Bool(_) => path == "fnLock"@,
        SettingValue::Text(c) => path == "lighting"@ && is_rgb_text(c@),
        SettingValue::Number(n) => path == "brightness"@ && n <= 100,
        SettingValue::Other => false,
    }
}

fn strip_leading_hashes(s: &str) -> (r: &str)
    ensures
        r@ == strip_all_hash(s@),
{
    let n = s.unicode_len();
    let mut i: usize = 0;
    assert(s@.skip(0) =~= s@);
    while i < n && s.get_char(i) == '#'
        invariant
            n == s@.len(),
            0 <= i <= n,
            strip_all_hash(s@) == strip_all_hash(s@.skip(i as int)),
        decreases n - i,
    {
        assert(s@.skip(i as int).drop_first() =~= s@.skip(i + 1));
        i = i + 1;
    }
    assert(s@.subrange(i as int, n as int) =~= s@.skip(i as int));
    s.substring_char(i, n)
}

/// Writes one native keyboard setting of the selected device and checks the
/// resulting configuration. A refused write leaves the configuration unchanged.
pub fn update_keyboard_setting(config: &mut Config, path: &str, value: &SettingValue) -> (r: Result<()>)
    ensures
        ({
            let entries = old(config).devices.entry_seq();
            let key = old(config).selected_device@;
            let p = first_index_of(entries, key);
            if !has_key(entries, key) {
                &&& r matches Err(ForgeError::ConfigError(_))
                &&& *final(config) == *old(config)
            } else if entries[p].1.keyboard is None {
                &&& r matches Err(ForgeError::ConfigError(_))
                &&& *final(config) == *old(config)
            } else if !write_accepted(path@, *value) {
                &&& r matches Err(ForgeError::InvalidArgument(_))
                &&& *final(config) == *old(config)
            } else {
                let dev = entries[p].1;
                let after = final(config).devices.entry_seq()[p].1;
                &&& final(config).schema_version == old(config).schema_version
                &&& final(config).selected_device == old(config).selected_device
                &&& final(config).app_settings == old(config).app_settings
                &&& after.keyboard is Some
                &&& keyboard_written(dev.keyboard->0, after.keyboard->0, path@, *value)
                &&& after == (DeviceConfig { keyboard: after.keyboard, ..dev })
                &&& final(config).devices.entry_seq() == entries.update(p, (entries[p].0, after))
                &&& (r is Ok <==> config_ok(*final(config)))
                &&& (r matches Err(e) ==> e is ConfigError)
            }
        }),
{
    let position = match config.devices.position(config.selected_device.as_str()) {
        Some(position) => position,
        None => {
            return Err(
                ForgeError::ConfigError(
                    message(
                        &message("selected_device ", config.selected_device.as_str()),
                        " is missing from devices",
                    ),
                ),
            );
        },
    };
    proof {
        reveal_strlit("fnLock");
        reveal_strlit("lighting");
        reveal_strlit("brightness");
        reveal_strlit("ffffff");
        assert("fnLock"@.len() == 6 && "lighting"@.len() == 8 && "brightness"@.len() == 10);
    }
    match &config.devices.entries()[position].1.keyboard {
        Some(_) => {},
        None => {
            return Err(ForgeError::ConfigError("selected device has no keyboard configuration".to_owned()));
        },
    }
    let is_fn_lock = str_eq(path, "fnLock");
    let is_lighting = str_eq(path, "lighting");
    let is_brightness = str_eq(path, "brightness");
    if is_fn_lock {
        match value {
            SettingValue::Bool(_) => {},
            _ => {
                return Err(ForgeError::InvalidArgument("fnLock must be boolean".to_owned()));
            },
        }
    } else if is_lighting {
        match value {
            SettingValue::Text(color) => {
                RgbColor::parse(color.as_str())?;
            },
            _ => {
                return Err(ForgeError::InvalidArgument("lighting must be an RGB color".to_owned()));
            },
        }
    } else if is_brightness {
        match value {
            SettingValue::Number(n) => {
                if *n > 100 {
                    return Err(ForgeError::InvalidArgument("brightness must be 0..=100".to_owned()));
                }
            },
            _ => {
                return Err(ForgeError::InvalidArgument("brightness must be 0..=100".to_owned()));
            },
        }
    } else {
        return Err(
            ForgeError::InvalidArgument(
                message(&message("native keyboard field ", path), " is not writable"),
            ),
        );
    }
    {
        let device = config.devices.value_mut(position);
        match &mut device.keyboard {
            None => {},
            Some(keyboard) => {
                match value {
                    SettingValue::Bool(b) => {
                        keyboard.fn_lock = Some(*b);
                    },
                    SettingValue::Text(color) => {
                        let stored = to_ascii_lowercase(strip_leading_hashes(color.as_str()));
                        match &mut keyboard.lighting {
                            Some(lighting) => {
                                lighting.color = stored;
                            },
                            None => {
                                keyboard.lighting = Some(KeyboardLightingConfig { color: stored, brightness: 100 });
                            },
                        }
                    },
                    SettingValue::Number(n) => {
                        let brightness = *n as u8;
                        match &mut keyboard.lighting {
                            Some(lighting) => {
                                lighting.brightness = brightness;
                            },
                            None => {
                                keyboard.lighting = Some(
                                    KeyboardLightingConfig { color: "ffffff".to_owned(), brightness },
                                );
                            },
                        }
                    },
                    SettingValue::Other => {},
                }
            },
        }
    }
    config.validate()
}


/// One hardware write the agent performed, as the reply reports it.
#[derive(Clone, Copy, Debug, PartialEq, Eq, Structural)]
pub enum ApplyOperation {
    FnLock { enabled: bool, feature: FnLockFeature },
    Lighting { backend: KeyboardLightingBackend, zones_written: u16, brightness: u8 },
}

/// A color scaled to `brightness` percent.
pub open spec fn spec_scaled(c: RgbColor, brightness: u8) -> RgbColor {
    RgbColor {
        red: scale_channel(c.red, brightness),
        green: scale_channel(c.green, brightness),
        blue: scale_channel(c.blue, brightness),
    }
}

/// The lighting part of applying a keyboard section, after the writes `ops`.
pub open spec fn spec_apply_lighting(
    w: Seq<WireEvent>,
    pos: int,
    d: u8,
    sw: u8,
    k: KeyboardConfig,
    ops: Seq<ApplyOperation>,
) -> Option<Step<Seq<ApplyOperation>>> {
    match k.lighting {
        None => Some(Step { result: Ok(ops), next: pos, sw }),
        Some(l) => if !is_rgb_text(l.color@) {
            Some(Step { result: Err(ErrorSpec::InvalidArgument), next: pos, sw })
        } else {
            match spec_keyboard_color(w, pos, d, sw, spec_scaled(spec_rgb(l.color@), l.brightness)) {
                None => None,
                Some(s) => match s.result {
                    Err(e) => failed(s, e),
                    Ok(info) => done(
                        s,
                        ops.push(
                            ApplyOperation::Lighting {
                                backend: info.backend,
                                zones_written: info.zones_written,
                                brightness: l.brightness,
                            },
                        ),
                    ),
                },
            }
        },
    }
}

/// Applying a keyboard section: the Fn-lock state when it names one, then
/// the lighting color scaled to its brightness when it names one.
pub open spec fn spec_apply_keyboard(w: Seq<WireEvent>, pos: int, d: u8, sw: u8, k: KeyboardConfig) -> Option<
    Step<Seq<ApplyOperation>>,
> {
    match k.fn_lock {
        None => spec_apply_lighting(w, pos, d, sw, k, seq![]),
        Some(enabled) => match spec_set_fn_lock(w, pos, d, sw, enabled) {
            None => None,
            Some(s) => match s.result {
                Err(e) => failed(s, e),
                Ok(info) => spec_apply_lighting(
                    w,
                    s.next,
                    d,
                    s.sw,
                    k,
                    seq![ApplyOperation::FnLock { enabled: info.enabled, feature: info.feature }],
                ),
            },
        },
    }
}

/// A list of operations agrees with a specified result.
pub open spec fn ops_fit(r: Result<Vec<ApplyOperation>>, s: core::result::Result<Seq<ApplyOperation>, ErrorSpec>) -> bool {
    match s {
        Ok(v) => r matches Ok(x) && x@ == v,
        Err(es) => r matches Err(e) && error_fits(e, es),
    }
}

fn apply_lighting<T: HidTransport>(client: &mut HidppClient<T>, keyboard: &KeyboardConfig, ops: Vec<ApplyOperation>) -> (r: Result<Vec<ApplyOperation>>)
    requires
        old(client).wf(),
    ensures
        ({
            let s = spec_apply_lighting(final(client).wire(), old(client).wire().len() as int, old(client).device(), old(client).software_id(), *keyboard, ops@);
            final(client).performed(old(client), s) && ops_fit(r, s->0.result)
        }),
{
    match &keyboard.lighting {
        None => Ok(ops),
        Some(lighting) => {
            let color = scale_color(RgbColor::parse(lighting.color.as_str())?, lighting.brightness);
            let info = client.set_keyboard_color(color)?;
            let mut ops = ops;
            ops.push(ApplyOperation::Lighting {
                backend: info.backend,
                zones_written: info.zones_written,
                brightness: lighting.brightness,
            });
            Ok(ops)
        },
    }
}

/// Applies a keyboard section through a client: Fn-lock first, then lighting.
pub fn apply_keyboard<T: HidTransport>(client: &mut HidppClient<T>, keyboard: &KeyboardConfig) -> (r: Result<Vec<ApplyOperation>>)
    requires
        old(client).wf(),
    ensures
        ({
            let s = spec_apply_keyboard(final(client).wire(), old(client).wire().len() as int, old(client).device(), old(client).software_id(), *keyboard);
            final(client).performed(old(client), s) && ops_fit(r, s->0.result)
        }),
{
    let mut ops: Vec<ApplyOperation> = Vec::new();
    if let Some(enabled) = keyboard.fn_lock {
        let info = client.set_fn_lock(enabled)?;
        ops.push(ApplyOperation::FnLock { enabled: info.enabled, feature: info.feature });
        assert(ops@ =~= seq![ApplyOperation::FnLock { enabled: info.enabled, feature: info.feature }]);
    }
    apply_lighting(client, keyboard, ops)
}

/// The key under which the agent lists a node: its serial number when it
/// reports one, otherwise its vendor, product and path.
pub open spec fn inventory_key_seq(node: HidNode) -> Seq<char> {
    match node.serial {
        Some(serial) => "serial:"@ + serial@,
        None => "hidraw:"@ + hex4_seq(node.vendor_id) + ":"@ + hex4_seq(node.product_id) + ":"@ + node.path@,
    }
}

/// The stable key of a discovered node in the agent's inventory.
pub fn inventory_key(node: &HidNode) -> (r: String)
    ensures
        r@ == inventory_key_seq(*node),
{
    match &node.serial {
        Some(serial) => message("serial:", serial.as_str()),
        None => {
            let mut key = message("hidraw:", hex4(node.vendor_id).as_str());
            key.append(":");
            key.append(hex4(node.product_id).as_str());
            key.append(":");
            key.append(node.path.as_str());
            key
        },
    }
}

/// The keyboard section of the selected device, if it has one.
pub fn selected_keyboard(config: &Config) -> (r: Result<Option<&KeyboardConfig>>)
    ensures
        match lookup(config.devices.entry_seq(), config.selected_device@) {
            None => r matches Err(ForgeError::ConfigError(_)),
            Some(dev) => match r {
                Ok(Some(k)) => dev.keyboard == Some(*k),
                Ok(None) => dev.keyboard is None,
                Err(_) => false,
            },
        },
{
    match config.devices.get(config.selected_device.as_str()) {
        Some(device) => match &device.keyboard {
            Some(keyboard) => Ok(Some(keyboard)),
            None => Ok(None),
        },
        None => Err(
            ForgeError::ConfigError(
                message(
                    &message("selected_device ", config.selected_device.as_str()),
                    " is missing from devices",
                ),
            ),
        ),
    }
}

/// Applies the keyboard section of the selected device over a transport to
/// device `index`. The result is what the protocol yields for the exchanges
/// the transport answered, which the transport decides.
pub fn apply_keyboard_config_with_transport<T: HidTransport>(config: &Config, index: u8, transport: T) -> (r: Result<Vec<ApplyOperation>>)
    ensures
        ({
            let entries = config.devices.entry_seq();
            let key = config.selected_device@;
            match lookup(entries, key) {
                None => r matches Err(ForgeError::ConfigError(_)),
                Some(dev) => match dev.keyboard {
                    None => r matches Ok(ops) && ops@.len() == 0,
                    Some(k) => exists|w: Seq<WireEvent>|
                        #![trigger spec_apply_keyboard(w, 0, index, 1, k)]
                        spec_apply_keyboard(w, 0, index, 1, k) matches Some(s) && s.next == w.len()
                            && ops_fit(r, s.result),
                },
            }
        }),
{
    let keyboard = match selected_keyboard(config)? {
        Some(keyboard) => keyboard,
        None => {
            return Ok(Vec::new());
        },
    };
    let mut client = HidppClient::new(transport, index);
    let r = apply_keyboard(&mut client, keyboard);
    proof {
        let w = client.wire();
        assert(spec_apply_keyboard(w, 0, index, 1, *keyboard) matches Some(s) && s.next == w.len()
            && ops_fit(r, s.result));
    }
    r
}


/// The state the resident agent publishes: a revision that changes with
/// every observed change and every write, and the payloads of its snapshot.
#[derive(Debug)]
pub struct AgentState<J> {
    pub revision: u64,
    pub fingerprint: String,
    pub devices: Vec<J>,
    pub config: J,
    pub apply: J,
    pub updated_at_ms: u128,
}

impl<J> AgentState<J> {
    /// A fresh state at revision 0.
    pub fn new(config: J, apply: J, now_ms: u128) -> (r: AgentState<J>)
        ensures
            r.revision == 0,
            r.fingerprint@ == Seq::<char>::empty(),
            r.devices@.len() == 0,
            r.config == config,
            r.apply == apply,
            r.updated_at_ms == now_ms,
    {
        proof {
            reveal_strlit("");
        }
        AgentState { revision: 0, fingerprint: "".to_owned(), devices: Vec::new(), config, apply, updated_at_ms: now_ms }
    }

    /// Records one poll of inventory and configuration: a new fingerprint
    /// advances the revision; the devices and configuration are replaced; a
    /// new apply report replaces the old one; an inventory failure empties
    /// the devices and becomes the apply report.
    pub fn observe(
        &mut self,
        fingerprint: String,
        devices: Vec<J>,
        config: J,
        apply: Option<J>,
        inventory_failure: Option<J>,
        now_ms: u128,
    )
        requires
            old(self).revision < u64::MAX,
        ensures
            final(self).revision == if old(self).fingerprint@ == fingerprint@ {
                old(self).revision as int
            } else {
                old(self).revision + 1
            },
            final(self).fingerprint@ == fingerprint@,
            final(self).config == config,
            final(self).updated_at_ms == now_ms,
            match inventory_failure {
                Some(report) => final(self).devices@.len() == 0 && final(self).apply == report,
                None => final(self).devices@ == devices@ && final(self).apply == match apply {
                    Some(report) => report,
                    None => old(self).apply,
                },
            },
    {
        if !str_eq(self.fingerprint.as_str(), fingerprint.as_str()) {
            self.revision = self.revision + 1;
            self.fingerprint = fingerprint;
        }
        self.devices = devices;
        self.config = config;
        if let Some(report) = apply {
            self.apply = report;
        }
        self.updated_at_ms = now_ms;
        if let Some(report) = inventory_failure {
            self.devices = Vec::new();
            self.apply = report;
        }
    }

    /// Records a committed write: the revision advances and the configuration
    /// and apply report are replaced.
    pub fn record_write(&mut self, config: J, apply: J, now_ms: u128)
        requires
            old(self).revision < u64::MAX,
        ensures
            final(self).revision == old(self).revision + 1,
            final(self).fingerprint == old(self).fingerprint,
            final(self).devices == old(self).devices,
            final(self).config == config,
            final(self).apply == apply,
            final(self).updated_at_ms == now_ms,
    {
        self.revision = self.revision + 1;
        self.config = config;
        self.apply = apply;
        self.updated_at_ms = now_ms;
    }
}

/// Whether the poller must reapply hardware settings: only when the
/// fingerprint differs from the last one applied, which it then becomes.
pub fn needs_apply(applied: &mut String, fingerprint: &str) -> (r: bool)
    ensures
        r == (old(applied)@ != fingerprint@),
        final(applied)@ == fingerprint@,
{
    if str_eq(applied.as_str(), fingerprint) {
        return false;
    }
    *applied = fingerprint.to_owned();
    true
}

/// Why the agent refuses a write request before touching the configuration.
#[derive(Clone, Debug, PartialEq, Eq)]
pub enum WriteRefusal {
    /// The request names a revision other than the current one.
    RevisionConflict { expected: u64, actual: u64 },
    /// The request names no field.
    MissingPath,
    /// The request carries no value.
    MissingValue,
}

/// The verdict on a write request: a stale revision is refused first, then a
/// request without a field or a value; a request without a revision is not
/// checked against one.
pub open spec fn write_verdict(
    expected_revision: Option<u64>,
    actual_revision: u64,
    has_path: bool,
    has_value: bool,
) -> core::result::Result<(), WriteRefusal> {
    match expected_revision {
        Some(e) if e != actual_revision => Err(WriteRefusal::RevisionConflict { expected: e, actual: actual_revision }),
        _ => if !has_path {
            Err(WriteRefusal::MissingPath)
        } else if !has_value {
            Err(WriteRefusal::MissingValue)
        } else {
            Ok(())
        },
    }
}

/// A request made against the revision read before a recorded write is
/// refused as a conflict, whatever it carries; one made against the current
/// revision with a field and a value passes.
pub proof fn lemma_stale_writes_are_refused<J>(before: AgentState<J>, after: AgentState<J>, has_path: bool, has_value: bool)
    requires
        after.revision == before.revision + 1,
    ensures
        write_verdict(Some(before.revision), after.revision, has_path, has_value)
            == Err::<(), WriteRefusal>(WriteRefusal::RevisionConflict { expected: before.revision, actual: after.revision }),
        write_verdict(Some(after.revision), after.revision, true, true) == Ok::<(), WriteRefusal>(()),
{
}

/// Checks a write request against the current revision.
pub fn check_write_request(
    expected_revision: Option<u64>,
    actual_revision: u64,
    has_path: bool,
    has_value: bool,
) -> (r: core::result::Result<(), WriteRefusal>)
    ensures
        r == write_verdict(expected_revision, actual_revision, has_path, has_value),
{
    if let Some(expected) = expected_revision {
        if expected != actual_revision {
            return Err(WriteRefusal::RevisionConflict { expected, actual: actual_revision });
        }
    }
    if !has_path {
        return Err(WriteRefusal::MissingPath);
    }
    if !has_value {
        return Err(WriteRefusal::MissingValue);
    }
    Ok(())
}

} // verus!
