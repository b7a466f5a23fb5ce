use vstd::prelude::*;

use crate::error::{ForgeError, Result};
use crate::text::{decimal, digit_char, hex_digit_char, message};

verus! {

pub const LOGITECH_VENDOR_ID: u16 = 0x046d;

/// One Linux hidraw node with the identity its sysfs `uevent` reports.
#[derive(Clone, Debug, PartialEq, Eq)]
pub struct HidNode {
    pub path: String,
    pub vendor_id: u16,
    pub product_id: u16,
    pub bus: HidBus,
    pub name: Option<String>,
    pub serial: Option<String>,
}

impl HidNode {
    pub fn is_logitech(&self) -> (r: bool)
        ensures
            r == (self.vendor_id == LOGITECH_VENDOR_ID),
    {
        self.vendor_id == LOGITECH_VENDOR_ID
    }
}

#[derive(Clone, Copy, Debug, PartialEq, Eq, Structural)]
pub enum HidBus {
    Usb,
    Bluetooth,
    Other(u16),
}

/// The bus named by a HID bus type number.
pub open spec fn spec_hid_bus(value: u16) -> HidBus {
    if value == 0x0003 {
        HidBus::Usb
    } else if value == 0x0005 {
        HidBus::Bluetooth
    } else {
        HidBus::Other(value)
    }
}

impl From<u16> for HidBus {
    fn from(value: u16) -> (r: Self) {
        match value {
            0x0003 => HidBus::Usb,
            0x0005 => HidBus::Bluetooth,
            other => HidBus::Other(other),
        }
    }
}

impl vstd::std_specs::convert::FromSpecImpl<u16> for HidBus {
    open spec fn obeys_from_spec() -> bool {
        true
    }

    open spec fn from_spec(value: u16) -> Self {
        spec_hid_bus(value)
    }
}

#[derive(Clone, Copy, Debug, PartialEq, Eq, Structural)]
pub enum BatteryStatus {
    Discharging,
    Charging,
    AlmostFull,
    Full,
    SlowCharging,
    Error(u8),
}

#[derive(Clone, Copy, Debug, PartialEq, Eq, Structural)]
pub struct BatteryInfo {
    pub percentage: u8,
    pub status: BatteryStatus,
    pub source_feature: u16,
}

#[derive(Clone, Debug, PartialEq, Eq)]
pub struct DpiInfo {
    pub current: u16,
    pub supported: Vec<u16>,
    pub source_feature: u16,
}

#[derive(Clone, Copy, Debug, PartialEq, Eq, Structural)]
pub enum WheelMode {
    FreeSpin,
    Ratchet,
}

/// The SmartShift wire number of a wheel mode.
pub open spec fn spec_wire_value(mode: WheelMode) -> u8 {
    match mode {
        WheelMode::FreeSpin => 1,
        WheelMode::Ratchet => 2,
    }
}

impl WheelMode {
    pub fn wire_value(self) -> (r: u8)
        ensures
            r == spec_wire_value(self),
    {
        match self {
            WheelMode::FreeSpin => 1,
            WheelMode::Ratchet => 2,
        }
    }

    /// Reads a SmartShift wire number; 1 and 2 are the only known modes.
    pub fn from_wire(value: u8) -> (r: Result<WheelMode>)
        ensures
            value == 1 ==> r == Ok::<WheelMode, ForgeError>(WheelMode::FreeSpin),
            value == 2 ==> r == Ok::<WheelMode, ForgeError>(WheelMode::Ratchet),
            value != 1 && value != 2 ==> r matches Err(ForgeError::InvalidResponse(_)),
            r matches Ok(mode) ==> spec_wire_value(mode) == value,
    {
        match value {
            1 => Ok(WheelMode::FreeSpin),
            2 => Ok(WheelMode::Ratchet),
            _ => Err(
                ForgeError::InvalidResponse(
                    message("unknown SmartShift wheel mode ", decimal(value as u64).as_str()),
                ),
            ),
        }
    }
}

#[derive(Clone, Copy, Debug, PartialEq, Eq, Structural)]
pub enum SmartShiftFeature {
    Legacy,
    Enhanced,
}

#[derive(Clone, Copy, Debug, PartialEq, Eq, Structural)]
pub struct SmartShiftInfo {
    pub mode: WheelMode,
    pub auto_disengage: u8,
    pub torque: Option<u8>,
    pub feature: SmartShiftFeature,
}

#[derive(Clone, Copy, Debug, PartialEq, Eq, Structural)]
pub enum FnLockFeature {
    MultiHost,
    SingleHost,
}

#[derive(Clone, Copy, Debug, PartialEq, Eq, Structural)]
pub struct FnLockInfo {
    pub enabled: bool,
    pub default_enabled: bool,
    pub supports_manual_toggle: bool,
    pub feature: FnLockFeature,
}

#[derive(Clone, Copy, Debug, PartialEq, Eq, Structural)]
pub struct RgbColor {
    pub red: u8,
    pub green: u8,
    pub blue: u8,
}

#[derive(Clone, Copy, Debug, PartialEq, Eq, Structural)]
pub enum KeyboardLightingBackend {
    Effects,
    PerKeyV2,
    PerKey,
}

#[derive(Clone, Copy, Debug, PartialEq, Eq, Structural)]
pub struct KeyboardLightingInfo {
    pub backend: KeyboardLightingBackend,
    pub zones_written: u16,
}

#[derive(Clone, Copy, Debug, PartialEq, Eq, Structural)]
pub struct ReprogControlInfo {
    pub cid: u16,
    pub task_id: u16,
    pub flags: u16,
}

impl ReprogControlInfo {
    /// Bit 5 of the capability flags marks a control that can be diverted.
    pub fn is_divertable(self) -> (r: bool)
        ensures
            r == ((self.flags / 32) % 2 == 1),
    {
        let flags = self.flags;
        assert(flags & 32 != 0 <==> (flags / 32) % 2 == 1) by (bit_vector);
        flags & 32 != 0
    }
}

#[derive(Clone, Debug, PartialEq, Eq)]
pub struct ReprogControlsInfo {
    pub feature_index: u8,
    pub controls: Vec<ReprogControlInfo>,
}

/// Whether `c` is an ASCII hexadecimal digit.
pub open spec fn is_hex_digit(c: char) -> bool {
    ('0' <= c <= '9') || ('a' <= c <= 'f') || ('A' <= c <= 'F')
}

/// The value of an ASCII hexadecimal digit.
pub open spec fn hex_value(c: char) -> int {
    if '0' <= c <= '9' {
        c as int - '0' as int
    } else if 'a' <= c <= 'f' {
        c as int - 'a' as int + 10
    } else {
        c as int - 'A' as int + 10
    }
}

/// The text of a color once one leading `#` is removed.
pub open spec fn strip_hash(s: Seq<char>) -> Seq<char> {
    if s.len() > 0 && s[0] == '#' {
        s.drop_first()
    } else {
        s
    }
}

/// Whether `s` is `RRGGBB` or `#RRGGBB` with hexadecimal digits.
pub open spec fn is_rgb_text(s: Seq<char>) -> bool {
    let t = strip_hash(s);
    t.len() == 6 && forall|i: int| 0 <= i < 6 ==> is_hex_digit(#[trigger] t[i])
}

/// The color that an `RRGGBB` or `#RRGGBB` text names.
pub open spec fn spec_rgb(s: Seq<char>) -> RgbColor {
    let t = strip_hash(s);
    RgbColor {
        red: (hex_value(t[0]) * 16 + hex_value(t[1])) as u8,
        green: (hex_value(t[2]) * 16 + hex_value(t[3])) as u8,
        blue: (hex_value(t[4]) * 16 + hex_value(t[5])) as u8,
    }
}

/// A hexadecimal digit character for `d < 16`, in upper or lower case.
pub open spec fn hex_digit_in_case(d: nat, upper: bool) -> char {
    if d < 10 {
        digit_char(d)
    } else if upper {
        ((('A' as u32) as nat) + d - 10) as char
    } else {
        hex_digit_char(d)
    }
}

/// The two hexadecimal digits of a byte, as `{:02x}` or `{:02X}` writes them.
pub open spec fn hex_pair(v: u8, upper: bool) -> Seq<char> {
    seq![hex_digit_in_case((v / 16) as nat, upper), hex_digit_in_case((v % 16) as nat, upper)]
}

proof fn lemma_hex_digit_value(d: nat, upper: bool)
    requires
        d < 16,
    ensures
        is_hex_digit(hex_digit_in_case(d, upper)),
        hex_value(hex_digit_in_case(d, upper)) == d,
        hex_digit_in_case(d, upper) != '#',
{
}

/// Reading the hexadecimal text of three bytes gives them back, with or
/// without the leading `#` and whatever the case of each pair's letters.
pub proof fn lemma_rgb_round_trip(c: RgbColor, hash: bool, upper_red: bool, upper_green: bool, upper_blue: bool)
    ensures
        ({
            let digits = hex_pair(c.red, upper_red) + hex_pair(c.green, upper_green) + hex_pair(
                c.blue,
                upper_blue,
            );
            let s = if hash {
                "#"@ + digits
            } else {
                digits
            };
            is_rgb_text(s) && spec_rgb(s) == c
        }),
{
    reveal_strlit("#");
    let digits = hex_pair(c.red, upper_red) + hex_pair(c.green, upper_green) + hex_pair(c.blue, upper_blue);
    lemma_hex_digit_value((c.red / 16) as nat, upper_red);
    lemma_hex_digit_value((c.red % 16) as nat, upper_red);
    lemma_hex_digit_value((c.green / 16) as nat, upper_green);
    lemma_hex_digit_value((c.green % 16) as nat, upper_green);
    lemma_hex_digit_value((c.blue / 16) as nat, upper_blue);
    lemma_hex_digit_value((c.blue % 16) as nat, upper_blue);
    assert(digits.len() == 6);
    assert(digits[0] == hex_digit_in_case((c.red / 16) as nat, upper_red));
    assert(digits[1] == hex_digit_in_case((c.red % 16) as nat, upper_red));
    assert(digits[2] == hex_digit_in_case((c.green / 16) as nat, upper_green));
    assert(digits[3] == hex_digit_in_case((c.green % 16) as nat, upper_green));
    assert(digits[4] == hex_digit_in_case((c.blue / 16) as nat, upper_blue));
    assert(digits[5] == hex_digit_in_case((c.blue % 16) as nat, upper_blue));
    if hash {
        assert(("#"@ + digits).drop_first() =~= digits);
        assert(strip_hash("#"@ + digits) == digits);
    } else {
        assert(strip_hash(digits) == digits);
    }
    assert(forall|i: int| 0 <= i < 6 ==> is_hex_digit(#[trigger] digits[i]));
    let red = (hex_value(digits[0]) * 16 + hex_value(digits[1])) as u8;
    assert(red == c.red);
    assert((hex_value(digits[2]) * 16 + hex_value(digits[3])) as u8 == c.green);
    assert((hex_value(digits[4]) * 16 + hex_value(digits[5])) as u8 == c.blue);
}

fn hex_digit(c: char) -> (r: Option<u8>)
    ensures
        r is Some == is_hex_digit(c),
        r matches Some(v) ==> v == hex_value(c) && v < 16,
{
    if '0' <= c && c <= '9' {
        Some(((c as u32) - ('0' as u32)) as u8)
    } else if 'a' <= c && c <= 'f' {
        Some(((c as u32) - ('a' as u32) + 10) as u8)
    } else if 'A' <= c && c <= 'F' {
        Some(((c as u32) - ('A' as u32) + 10) as u8)
    } else {
        None
    }
}

impl RgbColor {
    /// Parses an RGB color in `RRGGBB` or `#RRGGBB` form.
    pub fn parse(value: &str) -> (r: Result<RgbColor>)
        ensures
            is_rgb_text(value@) ==> r == Ok::<RgbColor, ForgeError>(spec_rgb(value@)),
            !is_rgb_text(value@) ==> r matches Err(ForgeError::InvalidArgument(_)),
    {
        let len = value.unicode_len();
        let t = if len > 0 && value.get_char(0) == '#' {
            value.substring_char(1, len)
        } else {
            value
        };
        assert(t@ == strip_hash(value@));
        let n = t.unicode_len();
        let mut digits: Vec<u8> = Vec::new();
        if n == 6 {
            let mut i: usize = 0;
            while i < 6
                invariant
                    t@ == strip_hash(value@),
                    t@.len() == 6,
                    0 <= i <= 6,
                    digits@.len() == i,
                    forall|j: int| 0 <= j < i ==> is_hex_digit(#[trigger] t@[j]),
                    forall|j: int|
                        #![trigger digits@[j]]
                        0 <= j < i ==> digits@[j] == hex_value(t@[j]) && digits@[j] < 16,
                decreases 6 - i,
            {
                match hex_digit(t.get_char(i)) {
                    Some(d) => digits.push(d),
                    None => {
                        let mut m = message("invalid RGB color ", t);
                        m.append("; expected RRGGBB");
                        return Err(ForgeError::InvalidArgument(m));
                    },
                }
                i = i + 1;
            }
            assert(digits@[0] < 16 && digits@[1] < 16 && digits@[2] < 16);
            assert(digits@[3] < 16 && digits@[4] < 16 && digits@[5] < 16);
            return Ok(
                RgbColor {
                    red: digits[0] * 16 + digits[1],
                    green: digits[2] * 16 + digits[3],
                    blue: digits[4] * 16 + digits[5],
                },
            );
        }
        let mut m = message("invalid RGB color ", t);
        m.append("; expected RRGGBB");
        Err(ForgeError::InvalidArgument(m))
    }
}

/// Runtime indexes of the HID++ features the agent uses; `None` marks an absent feature.
#[derive(Clone, Debug, PartialEq, Eq, Structural)]
pub struct FeatureMap {
    pub unified_battery: Option<u8>,
    pub legacy_battery: Option<u8>,
    pub adjustable_dpi: Option<u8>,
    pub smartshift_enhanced: Option<u8>,
    pub smartshift_legacy: Option<u8>,
}

} // verus!
