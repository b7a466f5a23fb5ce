use evdev::KeyCode;
use vstd::prelude::*;

use crate::action::{
    Action, ActionView, InputKey, command_keys, lemma_shortcut_keys, shortcut_key, spec_input_command,
};
use crate::config::{Config, DeviceConfig, ProfileConfig};
use crate::error::{ForgeError, Result};
use crate::router::{AppIdentity, AppProfile, map_from_pairs, pairs_map};
use crate::strmap::{StrMap, lookup};
use crate::text::{eq_ignore_ascii_case, eq_ignore_case, message, trim, trim_seq};

verus! {

/// Whether `c` is a digit in base `radix` (10 or 16).
pub open spec fn is_radix_digit(c: char, radix: int) -> bool {
    if radix == 16 {
        ('0' <= c <= '9') || ('a' <= c <= 'f') || ('A' <= c <= 'F')
    } else {
        '0' <= c <= '9'
    }
}

/// The value of a digit in base 10 or 16.
pub open spec fn radix_digit_value(c: char) -> int {
    if '0' <= c <= '9' {
        c as int - '0' as int
    } else if 'a' <= c <= 'f' {
        c as int - 'a' as int + 10
    } else {
        c as int - 'A' as int + 10
    }
}

/// The value of a string of digits in base `radix`.
pub open spec fn digits_value(d: Seq<char>, radix: int) -> int
    decreases d.len(),
{
    if d.len() == 0 {
        0
    } else {
        digits_value(d.drop_last(), radix) * radix + radix_digit_value(d.last())
    }
}

/// Every character of `d` is a digit in base `radix`.
pub open spec fn all_radix_digits(d: Seq<char>, radix: int) -> bool {
    forall|i: int| 0 <= i < d.len() ==> is_radix_digit(#[trigger] d[i], radix)
}

/// What `from_str_radix` reads for an unsigned type whose largest value is
/// `max`: an optional `+`, then at least one digit, and nothing else.
pub open spec fn spec_parse_unsigned(s: Seq<char>, radix: int, max: int) -> Option<int> {
    let d = if s.len() > 0 && s[0] == '+' {
        s.drop_first()
    } else {
        s
    };
    if d.len() == 0 || !all_radix_digits(d, radix) {
        None
    } else if digits_value(d, radix) <= max {
        Some(digits_value(d, radix))
    } else {
        None
    }
}

/// Reading with a smaller bound gives the same value when it fits, and nothing otherwise.
pub proof fn lemma_parse_narrower(s: Seq<char>, radix: int, wide: int, narrow: int)
    requires
        narrow <= wide,
        radix == 10 || radix == 16,
    ensures
        match spec_parse_unsigned(s, radix, wide) {
            Some(v) => spec_parse_unsigned(s, radix, narrow) == if v <= narrow {
                Some(v)
            } else {
                None::<int>
            },
            None => spec_parse_unsigned(s, radix, narrow) is None,
        },
        spec_parse_unsigned(s, radix, wide) matches Some(v) ==> 0 <= v <= wide,
{
    let d = if s.len() > 0 && s[0] == '+' {
        s.drop_first()
    } else {
        s
    };
    if let Some(v) = spec_parse_unsigned(s, radix, wide) {
        lemma_digits_nonneg(d, radix);
    }
}

/// A digit string has a value of at least zero.
proof fn lemma_digits_nonneg(d: Seq<char>, radix: int)
    requires
        radix == 10 || radix == 16,
        all_radix_digits(d, radix),
    ensures
        digits_value(d, radix) >= 0,
    decreases d.len(),
{
    if d.len() > 0 {
        assert(is_radix_digit(d[d.len() - 1], radix));
        lemma_digits_nonneg(d.drop_last(), radix);
    }
}

/// `u16::from_str`: an optional `+` and decimal digits naming a value below 65536.
#[verifier::external_body]
pub(crate) fn parse_decimal_u16(s: &str) -> (r: Option<u16>)
    ensures
        match spec_parse_unsigned(s@, 10, 0xffff) {
            Some(v) => r == Some(v as u16),
            None => r is None,
        },
{
    s.parse::<u16>().ok()
}

/// The Linux mouse buttons that button labels name.
#[derive(Clone, Copy, Debug, PartialEq, Eq, Structural)]
pub enum MouseButton {
    Left,
    Right,
    Middle,
    Side,
    Extra,
    Forward,
    Back,
    Task,
}

/// The evdev codes of the mouse buttons, as `evdev::KeyCode` defines them.
pub open spec fn spec_button_code(b: MouseButton) -> u16 {
    match b {
        MouseButton::Left => 0x110,
        MouseButton::Right => 0x111,
        MouseButton::Middle => 0x112,
        MouseButton::Side => 0x113,
        MouseButton::Extra => 0x114,
        MouseButton::Forward => 0x115,
        MouseButton::Back => 0x116,
        MouseButton::Task => 0x117,
    }
}

/// `evdev::KeyCode::code` of the `BTN_*` constant for a mouse button.
#[verifier::external_body]
fn button_code(b: MouseButton) -> (r: u16)
    ensures
        r == spec_button_code(b),
{
    match b {
        MouseButton::Left => KeyCode::BTN_LEFT.code(),
        MouseButton::Right => KeyCode::BTN_RIGHT.code(),
        MouseButton::Middle => KeyCode::BTN_MIDDLE.code(),
        MouseButton::Side => KeyCode::BTN_SIDE.code(),
        MouseButton::Extra => KeyCode::BTN_EXTRA.code(),
        MouseButton::Forward => KeyCode::BTN_FORWARD.code(),
        MouseButton::Back => KeyCode::BTN_BACK.code(),
        MouseButton::Task => KeyCode::BTN_TASK.code(),
    }
}

/// The evdev code of function key `F<n>`, as `evdev::KeyCode` defines it.
pub open spec fn spec_function_key_code(n: int) -> u16 {
    if n <= 10 {
        (58 + n) as u16
    } else {
        (76 + n) as u16
    }
}

/// `evdev::KeyCode::code` of the `KEY_F<n>` constant.
#[verifier::external_body]
fn function_key_code(n: u8) -> (r: u16)
    requires
        1 <= n <= 12,
    ensures
        r == spec_function_key_code(n as int),
{
    let key = match n {
        1 => KeyCode::KEY_F1, 2 => KeyCode::KEY_F2, 3 => KeyCode::KEY_F3,
        4 => KeyCode::KEY_F4, 5 => KeyCode::KEY_F5, 6 => KeyCode::KEY_F6,
        7 => KeyCode::KEY_F7, 8 => KeyCode::KEY_F8, 9 => KeyCode::KEY_F9,
        10 => KeyCode::KEY_F10, 11 => KeyCode::KEY_F11, _ => KeyCode::KEY_F12,
    };
    key.code()
}

/// The evdev code of a lower-case letter key, as `evdev::KeyCode` defines
/// it; 0 (`KEY_RESERVED`) for any other character.
pub open spec fn spec_letter_code(c: char) -> u16 {
    if c == 'a' { 30 } else if c == 'b' { 48 } else if c == 'c' { 46 } else if c == 'd' { 32 }
    else if c == 'e' { 18 } else if c == 'f' { 33 } else if c == 'g' { 34 } else if c == 'h' { 35 }
    else if c == 'i' { 23 } else if c == 'j' { 36 } else if c == 'k' { 37 } else if c == 'l' { 38 }
    else if c == 'm' { 50 } else if c == 'n' { 49 } else if c == 'o' { 24 } else if c == 'p' { 25 }
    else if c == 'q' { 16 } else if c == 'r' { 19 } else if c == 's' { 31 } else if c == 't' { 20 }
    else if c == 'u' { 22 } else if c == 'v' { 47 } else if c == 'w' { 17 } else if c == 'x' { 45 }
    else if c == 'y' { 21 } else if c == 'z' { 44 } else { 0 }
}

/// The evdev key code that a platform-neutral key presses on Linux, as
/// `evdev::KeyCode` defines it; 0 (`KEY_RESERVED`) for the keys without a
/// Linux equivalent: the desktop gestures, digits and other characters.
pub open spec fn spec_linux_key_code(key: InputKey) -> u16 {
    match key {
        InputKey::Back => 158,
        InputKey::Forward => 159,
        InputKey::Copy => 133,
        InputKey::Paste => 135,
        InputKey::Undo => 131,
        InputKey::Redo => 182,
        InputKey::PlayPause => 164,
        InputKey::PrevTrack => 165,
        InputKey::NextTrack => 163,
        InputKey::VolumeUp => 115,
        InputKey::VolumeDown => 114,
        InputKey::Mute => 113,
        InputKey::Ctrl => 29,
        InputKey::Shift => 42,
        InputKey::Alt => 56,
        InputKey::Meta => 125,
        InputKey::Space => 57,
        InputKey::Up => 103,
        InputKey::Down => 108,
        InputKey::ShowDesktop => 0,
        InputKey::MissionControl => 0,
        InputKey::AppExpose => 0,
        InputKey::Key(c) => spec_letter_code(c),
    }
}

/// The media and editing keys.
pub open spec fn is_media_key(k: InputKey) -> bool {
    ||| k is Back ||| k is Forward ||| k is Copy ||| k is Paste ||| k is Undo ||| k is Redo
    ||| k is PlayPause ||| k is PrevTrack ||| k is NextTrack ||| k is VolumeUp
    ||| k is VolumeDown ||| k is Mute
}

/// The modifier, space and arrow keys.
pub open spec fn is_modifier_key(k: InputKey) -> bool {
    ||| k is Ctrl ||| k is Shift ||| k is Alt ||| k is Meta ||| k is Space ||| k is Up ||| k is Down
}

/// `evdev::KeyCode::code` of the `KEY_*` constant for a media or editing key.
#[verifier::external_body]
fn media_key_code(k: InputKey) -> (r: u16)
    requires
        is_media_key(k),
    ensures
        r == spec_linux_key_code(k),
{
    let key = match k {
        InputKey::Back => KeyCode::KEY_BACK, InputKey::Forward => KeyCode::KEY_FORWARD,
        InputKey::Copy => KeyCode::KEY_COPY, InputKey::Paste => KeyCode::KEY_PASTE,
        InputKey::Undo => KeyCode::KEY_UNDO, InputKey::Redo => KeyCode::KEY_REDO,
        InputKey::PlayPause => KeyCode::KEY_PLAYPAUSE, InputKey::PrevTrack => KeyCode::KEY_PREVIOUSSONG,
        InputKey::NextTrack => KeyCode::KEY_NEXTSONG, InputKey::VolumeUp => KeyCode::KEY_VOLUMEUP,
        InputKey::VolumeDown => KeyCode::KEY_VOLUMEDOWN, _ => KeyCode::KEY_MUTE,
    };
    key.code()
}

/// `evdev::KeyCode::code` of the `KEY_*` constant for a modifier, space or arrow key.
#[verifier::external_body]
fn modifier_key_code(k: InputKey) -> (r: u16)
    requires
        is_modifier_key(k),
    ensures
        r == spec_linux_key_code(k),
{
    let key = match k {
        InputKey::Ctrl => KeyCode::KEY_LEFTCTRL, InputKey::Shift => KeyCode::KEY_LEFTSHIFT,
        InputKey::Alt => KeyCode::KEY_LEFTALT, InputKey::Meta => KeyCode::KEY_LEFTMETA,
        InputKey::Space => KeyCode::KEY_SPACE, InputKey::Up => KeyCode::KEY_UP, _ => KeyCode::KEY_DOWN,
    };
    key.code()
}

/// `evdev::KeyCode::code` of `KEY_A` to `KEY_M` for the letters `a` to `m`.
#[verifier::external_body]
fn early_letter_code(c: char) -> (r: u16)
    requires
        'a' <= c <= 'm',
    ensures
        r == spec_letter_code(c),
{
    let key = match c {
        'a' => KeyCode::KEY_A, 'b' => KeyCode::KEY_B, 'c' => KeyCode::KEY_C, 'd' => KeyCode::KEY_D,
        'e' => KeyCode::KEY_E, 'f' => KeyCode::KEY_F, 'g' => KeyCode::KEY_G, 'h' => KeyCode::KEY_H,
        'i' => KeyCode::KEY_I, 'j' => KeyCode::KEY_J, 'k' => KeyCode::KEY_K, 'l' => KeyCode::KEY_L,
        _ => KeyCode::KEY_M,
    };
    key.code()
}

/// `evdev::KeyCode::code` of `KEY_N` to `KEY_Z` for the letters `n` to `z`.
#[verifier::external_body]
fn late_letter_code(c: char) -> (r: u16)
    requires
        'n' <= c <= 'z',
    ensures
        r == spec_letter_code(c),
{
    let key = match c {
        'n' => KeyCode::KEY_N, 'o' => KeyCode::KEY_O, 'p' => KeyCode::KEY_P, 'q' => KeyCode::KEY_Q,
        'r' => KeyCode::KEY_R, 's' => KeyCode::KEY_S, 't' => KeyCode::KEY_T, 'u' => KeyCode::KEY_U,
        'v' => KeyCode::KEY_V, 'w' => KeyCode::KEY_W, 'x' => KeyCode::KEY_X, 'y' => KeyCode::KEY_Y,
        _ => KeyCode::KEY_Z,
    };
    key.code()
}

/// `evdev::KeyCode::code` of `KEY_RESERVED`, the code that presses nothing.
#[verifier::external_body]
fn reserved_key_code() -> (r: u16)
    ensures
        r == 0,
{
    KeyCode::KEY_RESERVED.code()
}

/// The evdev key code that a platform-neutral key presses on Linux.
pub fn linux_key_code(key: InputKey) -> (r: u16)
    ensures
        r == spec_linux_key_code(key),
{
    match key {
        InputKey::Ctrl | InputKey::Shift | InputKey::Alt | InputKey::Meta | InputKey::Space
        | InputKey::Up | InputKey::Down => modifier_key_code(key),
        InputKey::ShowDesktop | InputKey::MissionControl | InputKey::AppExpose => reserved_key_code(),
        InputKey::Key(c) => {
            if 'a' <= c && c <= 'm' {
                early_letter_code(c)
            } else if 'n' <= c && c <= 'z' {
                late_letter_code(c)
            } else {
                reserved_key_code()
            }
        },
        _ => media_key_code(key),
    }
}

/// The keys the Linux virtual device declares: every named key with a Linux
/// code and the letters `a` to `z`.
pub open spec fn declared_key(k: InputKey) -> bool {
    ||| is_media_key(k)
    ||| is_modifier_key(k)
    ||| (k matches InputKey::Key(c) && 'a' <= c <= 'z')
}

/// The key codes the Linux virtual device declares, as a list.
pub fn supported_virtual_key_codes() -> (r: Vec<u16>)
    ensures
        forall|k: InputKey| declared_key(k) <==> r@.contains(#[trigger] spec_linux_key_code(k)),
        forall|i: int| 0 <= i < r@.len() ==> r@[i] != 0,
{
    let named = vec![
        InputKey::Back, InputKey::Forward, InputKey::Copy, InputKey::Paste, InputKey::Undo,
        InputKey::Redo, InputKey::PlayPause, InputKey::PrevTrack, InputKey::NextTrack,
        InputKey::VolumeUp, InputKey::VolumeDown, InputKey::Mute, InputKey::Ctrl, InputKey::Shift,
        InputKey::Alt, InputKey::Meta, InputKey::Space, InputKey::Up, InputKey::Down,
    ];
    let mut codes: Vec<u16> = Vec::new();
    let mut i: usize = 0;
    while i < named.len()
        invariant
            0 <= i <= named@.len(),
            named@ == seq![
                InputKey::Back, InputKey::Forward, InputKey::Copy, InputKey::Paste, InputKey::Undo,
                InputKey::Redo, InputKey::PlayPause, InputKey::PrevTrack, InputKey::NextTrack,
                InputKey::VolumeUp, InputKey::VolumeDown, InputKey::Mute, InputKey::Ctrl, InputKey::Shift,
                InputKey::Alt, InputKey::Meta, InputKey::Space, InputKey::Up, InputKey::Down,
            ],
            codes@.len() == i,
            forall|j: int| 0 <= j < i ==> codes@[j] == spec_linux_key_code(#[trigger] named@[j]),
        decreases named@.len() - i,
    {
        codes.push(linux_key_code(named[i]));
        i = i + 1;
    }
    let mut b: u8 = 97;
    while b <= 122
        invariant
            97 <= b <= 123,
            codes@.len() == 19 + (b - 97),
            forall|j: int| 0 <= j < 19 ==> codes@[j] == spec_linux_key_code(#[trigger] named@[j]),
            named@ == seq![
                InputKey::Back, InputKey::Forward, InputKey::Copy, InputKey::Paste, InputKey::Undo,
                InputKey::Redo, InputKey::PlayPause, InputKey::PrevTrack, InputKey::NextTrack,
                InputKey::VolumeUp, InputKey::VolumeDown, InputKey::Mute, InputKey::Ctrl, InputKey::Shift,
                InputKey::Alt, InputKey::Meta, InputKey::Space, InputKey::Up, InputKey::Down,
            ],
            forall|j: int| 19 <= j < codes@.len() ==> #[trigger] codes@[j] == spec_letter_code(((j - 19 + 97) as u8) as char),
        decreases 123 - b,
    {
        codes.push(linux_key_code(InputKey::Key(b as char)));
        b = b + 1;
    }
    proof {
        lemma_declared_codes(named@, codes@);
    }
    codes
}

proof fn lemma_declared_codes(named: Seq<InputKey>, codes: Seq<u16>)
    requires
        named == seq![
            InputKey::Back, InputKey::Forward, InputKey::Copy, InputKey::Paste, InputKey::Undo,
            InputKey::Redo, InputKey::PlayPause, InputKey::PrevTrack, InputKey::NextTrack,
            InputKey::VolumeUp, InputKey::VolumeDown, InputKey::Mute, InputKey::Ctrl, InputKey::Shift,
            InputKey::Alt, InputKey::Meta, InputKey::Space, InputKey::Up, InputKey::Down,
        ],
        codes.len() == 45,
        forall|j: int| 0 <= j < 19 ==> codes[j] == spec_linux_key_code(#[trigger] named[j]),
        forall|j: int| 19 <= j < 45 ==> #[trigger] codes[j] == spec_letter_code(((j - 19 + 97) as u8) as char),
    ensures
        forall|k: InputKey| declared_key(k) <==> codes.contains(#[trigger] spec_linux_key_code(k)),
        forall|i: int| 0 <= i < codes.len() ==> codes[i] != 0,
{
    assert forall|c: char| 'a' <= c <= 'z' implies #[trigger] spec_letter_code(c) != 0 && codes[19 + (c as int - 97)]
        == spec_letter_code(c) by {
        let j = 19 + (c as int - 97);
        assert(((j - 19 + 97) as u8) as char == c);
    }
    assert forall|i: int| 0 <= i < codes.len() implies codes[i] != 0 by {
        if i >= 19 {
            let c = ((i - 19 + 97) as u8) as char;
            assert('a' <= c <= 'z');
            assert(spec_letter_code(c) != 0);
        } else {
            assert(codes[i] == spec_linux_key_code(named[i]));
        }
    }
    assert forall|k: InputKey| declared_key(k) <==> codes.contains(#[trigger] spec_linux_key_code(k)) by {
        if declared_key(k) {
            match k {
                InputKey::Key(c) => {
                    let j = 19 + (c as int - 97);
                    assert(codes[j] == spec_linux_key_code(k));
                },
                InputKey::Back => { assert(codes[0] == spec_linux_key_code(named[0])); },
                InputKey::Forward => { assert(codes[1] == spec_linux_key_code(named[1])); },
                InputKey::Copy => { assert(codes[2] == spec_linux_key_code(named[2])); },
                InputKey::Paste => { assert(codes[3] == spec_linux_key_code(named[3])); },
                InputKey::Undo => { assert(codes[4] == spec_linux_key_code(named[4])); },
                InputKey::Redo => { assert(codes[5] == spec_linux_key_code(named[5])); },
                InputKey::PlayPause => { assert(codes[6] == spec_linux_key_code(named[6])); },
                InputKey::PrevTrack => { assert(codes[7] == spec_linux_key_code(named[7])); },
                InputKey::NextTrack => { assert(codes[8] == spec_linux_key_code(named[8])); },
                InputKey::VolumeUp => { assert(codes[9] == spec_linux_key_code(named[9])); },
                InputKey::VolumeDown => { assert(codes[10] == spec_linux_key_code(named[10])); },
                InputKey::Mute => { assert(codes[11] == spec_linux_key_code(named[11])); },
                InputKey::Ctrl => { assert(codes[12] == spec_linux_key_code(named[12])); },
                InputKey::Shift => { assert(codes[13] == spec_linux_key_code(named[13])); },
                InputKey::Alt => { assert(codes[14] == spec_linux_key_code(named[14])); },
                InputKey::Meta => { assert(codes[15] == spec_linux_key_code(named[15])); },
                InputKey::Space => { assert(codes[16] == spec_linux_key_code(named[16])); },
                InputKey::Up => { assert(codes[17] == spec_linux_key_code(named[17])); },
                InputKey::Down => { assert(codes[18] == spec_linux_key_code(named[18])); },
                _ => {},
            }
        } else {
            assert(spec_linux_key_code(k) == 0);
        }
    }
}

/// Every key an action's command presses that has a Linux code is one the
/// virtual device declares.
pub proof fn lemma_pressed_keys_are_declared(a: ActionView, k: InputKey)
    requires
        spec_input_command(a) matches Some(c) && command_keys(c).contains(k),
        spec_linux_key_code(k) != 0,
    ensures
        declared_key(k),
{
    let c = spec_input_command(a)->0;
    let keys = command_keys(c);
    let i = choose|i: int| 0 <= i < keys.len() && keys[i] == k;
    match a {
        ActionView::CustomShortcut(s) => {
            lemma_shortcut_keys(s);
            assert(shortcut_key(keys[i]));
        },
        ActionView::HoldShortcut(s) => {
            lemma_shortcut_keys(s);
            assert(shortcut_key(keys[i]));
        },
        _ => {},
    }
}

/// The evdev codes a mouse button label names: a decimal code, a portable
/// name, or a Linux `BTN_*` name, compared without ASCII case.
pub open spec fn spec_button_codes(label: Seq<char>) -> Option<Seq<u16>> {
    let t = trim_seq(label);
    if spec_parse_unsigned(t, 10, 0xffff) is Some {
        Some(seq![spec_parse_unsigned(t, 10, 0xffff)->0 as u16])
    } else if eq_ignore_case(t, "left"@) || eq_ignore_case(t, "leftclick"@) || eq_ignore_case(
        t,
        "btn_left"@,
    ) {
        Some(seq![spec_button_code(MouseButton::Left)])
    } else if eq_ignore_case(t, "right"@) || eq_ignore_case(t, "rightclick"@) || eq_ignore_case(
        t,
        "btn_right"@,
    ) {
        Some(seq![spec_button_code(MouseButton::Right)])
    } else if eq_ignore_case(t, "middle"@) || eq_ignore_case(t, "middleclick"@) || eq_ignore_case(
        t,
        "btn_middle"@,
    ) {
        Some(seq![spec_button_code(MouseButton::Middle)])
    } else if eq_ignore_case(t, "back"@) {
        Some(seq![spec_button_code(MouseButton::Side), spec_button_code(MouseButton::Back)])
    } else if eq_ignore_case(t, "side"@) || eq_ignore_case(t, "btn_side"@) {
        Some(seq![spec_button_code(MouseButton::Side)])
    } else if eq_ignore_case(t, "btn_back"@) {
        Some(seq![spec_button_code(MouseButton::Back)])
    } else if eq_ignore_case(t, "forward"@) {
        Some(seq![spec_button_code(MouseButton::Extra), spec_button_code(MouseButton::Forward)])
    } else if eq_ignore_case(t, "extra"@) || eq_ignore_case(t, "btn_extra"@) {
        Some(seq![spec_button_code(MouseButton::Extra)])
    } else if eq_ignore_case(t, "btn_forward"@) {
        Some(seq![spec_button_code(MouseButton::Forward)])
    } else if eq_ignore_case(t, "dpitoggle"@) || eq_ignore_case(t, "task"@) || eq_ignore_case(
        t,
        "btn_task"@,
    ) {
        Some(seq![spec_button_code(MouseButton::Task)])
    } else {
        None
    }
}

fn one_code(code: u16) -> (r: Vec<u16>)
    ensures
        r@ == seq![code],
{
    let mut r = Vec::new();
    r.push(code);
    assert(r@ =~= seq![code]);
    r
}

fn two_codes(a: u16, b: u16) -> (r: Vec<u16>)
    ensures
        r@ == seq![a, b],
{
    let mut r = Vec::new();
    r.push(a);
    r.push(b);
    assert(r@ =~= seq![a, b]);
    r
}

/// Resolves a portable mouse button label or numeric evdev code.
pub fn resolve_evdev_button_codes(label: &str) -> (r: Result<Vec<u16>>)
    ensures
        match spec_button_codes(label@) {
            Some(codes) => r matches Ok(v) && v@ == codes,
            None => r matches Err(ForgeError::ConfigError(_)),
        },
{
    let t = trim(label);
    if let Some(code) = parse_decimal_u16(t) {
        return Ok(one_code(code));
    }
    if eq_ignore_ascii_case(t, "left") || eq_ignore_ascii_case(t, "leftclick")
        || eq_ignore_ascii_case(t, "btn_left") {
        Ok(one_code(button_code(MouseButton::Left)))
    } else if eq_ignore_ascii_case(t, "right") || eq_ignore_ascii_case(t, "rightclick")
        || eq_ignore_ascii_case(t, "btn_right") {
        Ok(one_code(button_code(MouseButton::Right)))
    } else if eq_ignore_ascii_case(t, "middle") || eq_ignore_ascii_case(t, "middleclick")
        || eq_ignore_ascii_case(t, "btn_middle") {
        Ok(one_code(button_code(MouseButton::Middle)))
    } else if eq_ignore_ascii_case(t, "back") {
        Ok(two_codes(button_code(MouseButton::Side), button_code(MouseButton::Back)))
    } else if eq_ignore_ascii_case(t, "side") || eq_ignore_ascii_case(t, "btn_side") {
        Ok(one_code(button_code(MouseButton::Side)))
    } else if eq_ignore_ascii_case(t, "btn_back") {
        Ok(one_code(button_code(MouseButton::Back)))
    } else if eq_ignore_ascii_case(t, "forward") {
        Ok(two_codes(button_code(MouseButton::Extra), button_code(MouseButton::Forward)))
    } else if eq_ignore_ascii_case(t, "extra") || eq_ignore_ascii_case(t, "btn_extra") {
        Ok(one_code(button_code(MouseButton::Extra)))
    } else if eq_ignore_ascii_case(t, "btn_forward") {
        Ok(one_code(button_code(MouseButton::Forward)))
    } else if eq_ignore_ascii_case(t, "dpitoggle") || eq_ignore_ascii_case(t, "task")
        || eq_ignore_ascii_case(t, "btn_task") {
        Ok(one_code(button_code(MouseButton::Task)))
    } else {
        let mut m = message("unknown Linux button ", t);
        m.append(
            "; use Back, Forward, DpiToggle, MiddleClick, LeftClick, RightClick, BTN_* or a numeric evdev code",
        );
        Err(ForgeError::ConfigError(m))
    }
}

/// The number `n` of an `F<n>` label for `1 <= n <= 12`, compared without ASCII case.
pub open spec fn spec_function_key_number(t: Seq<char>) -> Option<int> {
    if eq_ignore_case(t, "F1"@) {
        Some(1)
    } else if eq_ignore_case(t, "F2"@) {
        Some(2)
    } else if eq_ignore_case(t, "F3"@) {
        Some(3)
    } else if eq_ignore_case(t, "F4"@) {
        Some(4)
    } else if eq_ignore_case(t, "F5"@) {
        Some(5)
    } else if eq_ignore_case(t, "F6"@) {
        Some(6)
    } else if eq_ignore_case(t, "F7"@) {
        Some(7)
    } else if eq_ignore_case(t, "F8"@) {
        Some(8)
    } else if eq_ignore_case(t, "F9"@) {
        Some(9)
    } else if eq_ignore_case(t, "F10"@) {
        Some(10)
    } else if eq_ignore_case(t, "F11"@) {
        Some(11)
    } else if eq_ignore_case(t, "F12"@) {
        Some(12)
    } else {
        None
    }
}

/// The evdev codes an F-row label names: a decimal code or `F1`..`F12`.
pub open spec fn spec_keyboard_codes(label: Seq<char>) -> Option<Seq<u16>> {
    let t = trim_seq(label);
    if spec_parse_unsigned(t, 10, 0xffff) is Some {
        Some(seq![spec_parse_unsigned(t, 10, 0xffff)->0 as u16])
    } else {
        match spec_function_key_number(t) {
            Some(n) => Some(seq![spec_function_key_code(n)]),
            None => None,
        }
    }
}

fn function_key_number(t: &str) -> (r: Option<u8>)
    ensures
        match spec_function_key_number(t@) {
            Some(n) => r == Some(n as u8) && 1 <= n <= 12,
            None => r is None,
        },
{
    if eq_ignore_ascii_case(t, "F1") {
        Some(1)
    } else if eq_ignore_ascii_case(t, "F2") {
        Some(2)
    } else if eq_ignore_ascii_case(t, "F3") {
        Some(3)
    } else if eq_ignore_ascii_case(t, "F4") {
        Some(4)
    } else if eq_ignore_ascii_case(t, "F5") {
        Some(5)
    } else if eq_ignore_ascii_case(t, "F6") {
        Some(6)
    } else if eq_ignore_ascii_case(t, "F7") {
        Some(7)
    } else if eq_ignore_ascii_case(t, "F8") {
        Some(8)
    } else if eq_ignore_ascii_case(t, "F9") {
        Some(9)
    } else if eq_ignore_ascii_case(t, "F10") {
        Some(10)
    } else if eq_ignore_ascii_case(t, "F11") {
        Some(11)
    } else if eq_ignore_ascii_case(t, "F12") {
        Some(12)
    } else {
        None
    }
}

/// Resolves an F-row key label for Linux keyboard capture.
pub fn resolve_evdev_keyboard_codes(label: &str) -> (r: Result<Vec<u16>>)
    ensures
        match spec_keyboard_codes(label@) {
            Some(codes) => r matches Ok(v) && v@ == codes,
            None => r matches Err(ForgeError::ConfigError(_)),
        },
{
    let t = trim(label);
    if let Some(code) = parse_decimal_u16(t) {
        return Ok(one_code(code));
    }
    match function_key_number(t) {
        Some(n) => Ok(one_code(function_key_code(n))),
        None => {
            let mut m = message("unknown Linux keyboard key ", t);
            m.append("; use F1..F12 or a numeric evdev code");
            Err(ForgeError::ConfigError(m))
        },
    }
}

/// Which kind of labels a binding table uses.
#[derive(Clone, Copy, Debug, PartialEq, Eq, Structural)]
pub enum KeyResolver {
    MouseButtons,
    FunctionKeys,
}

pub open spec fn spec_resolve(resolver: KeyResolver, label: Seq<char>) -> Option<Seq<u16>> {
    match resolver {
        KeyResolver::MouseButtons => spec_button_codes(label),
        KeyResolver::FunctionKeys => spec_keyboard_codes(label),
    }
}

/// The routes of one binding: each code of its label with its action. A
/// label that does not resolve is skipped when its action is `None` and
/// invalid otherwise.
pub open spec fn entry_routes(resolver: KeyResolver, label: Seq<char>, action: Action) -> Option<
    Seq<(u16, Action)>,
> {
    match spec_resolve(resolver, label) {
        Some(codes) => Some(codes.map_values(|c: u16| (c, action))),
        None => if action is NoAction {
            Some(Seq::<(u16, Action)>::empty())
        } else {
            None
        },
    }
}

/// The routes of a binding table, in table order.
pub open spec fn table_routes(resolver: KeyResolver, entries: Seq<(String, Action)>) -> Option<
    Seq<(u16, Action)>,
>
    decreases entries.len(),
{
    if entries.len() == 0 {
        Some(Seq::<(u16, Action)>::empty())
    } else {
        match (
            table_routes(resolver, entries.drop_last()),
            entry_routes(resolver, entries.last().0@, entries.last().1),
        ) {
            (Some(a), Some(b)) => Some(a + b),
            _ => None,
        }
    }
}

/// No two routes use the same code.
pub open spec fn codes_distinct(routes: Seq<(u16, Action)>) -> bool {
    forall|i: int, j: int| 0 <= i < j < routes.len() ==> (#[trigger] routes[i]).0 != (
    #[trigger] routes[j]).0
}

/// The routes of a binding table when every label resolves (or is an
/// ignored `None`) and no code is bound twice.
pub open spec fn spec_bindings_routes(resolver: KeyResolver, entries: Seq<(String, Action)>) -> Option<
    Seq<(u16, Action)>,
> {
    match table_routes(resolver, entries) {
        Some(rs) => if codes_distinct(rs) {
            Some(rs)
        } else {
            None
        },
        None => None,
    }
}

fn resolve_label(resolver: KeyResolver, label: &str) -> (r: Result<Vec<u16>>)
    ensures
        match spec_resolve(resolver, label@) {
            Some(codes) => r matches Ok(v) && v@ == codes,
            None => r matches Err(ForgeError::ConfigError(_)),
        },
{
    match resolver {
        KeyResolver::MouseButtons => resolve_evdev_button_codes(label),
        KeyResolver::FunctionKeys => resolve_evdev_keyboard_codes(label),
    }
}

fn first_duplicate(routes: &Vec<(u16, Action)>) -> (r: Option<u16>)
    ensures
        r is None <==> codes_distinct(routes@),
{
    let mut i: usize = 0;
    while i < routes.len()
        invariant
            0 <= i <= routes@.len(),
            forall|a: int, b: int|
                0 <= a < b < routes@.len() && a < i ==> (#[trigger] routes@[a]).0 != (
                #[trigger] routes@[b]).0,
        decreases routes@.len() - i,
    {
        let mut j: usize = i + 1;
        while j < routes.len()
            invariant
                i < routes@.len(),
                i + 1 <= j <= routes@.len(),
                forall|a: int, b: int|
                    0 <= a < b < routes@.len() && a < i ==> (#[trigger] routes@[a]).0 != (
                    #[trigger] routes@[b]).0,
                forall|b: int| i < b < j ==> routes@[i as int].0 != (#[trigger] routes@[b]).0,
            decreases routes@.len() - j,
        {
            if routes[i].0 == routes[j].0 {
                return Some(routes[i].0);
            }
            j = j + 1;
        }
        i = i + 1;
    }
    None
}

/// Resolves a binding table with the given kind of labels.
pub fn resolve_bindings_with(bindings: &StrMap<Action>, resolver: KeyResolver) -> (r: Result<
    Vec<(u16, Action)>,
>)
    ensures
        match spec_bindings_routes(resolver, bindings.entry_seq()) {
            Some(rs) => r matches Ok(v) && v@ == rs,
            None => r matches Err(ForgeError::ConfigError(_)),
        },
{
    let entries = bindings.entries();
    let mut routes: Vec<(u16, Action)> = Vec::new();
    let mut failed: Option<ForgeError> = None;
    let mut i: usize = 0;
    while i < entries.len()
        invariant
            entries@ == bindings.entry_seq(),
            0 <= i <= entries@.len(),
            failed is None ==> table_routes(resolver, entries@.take(i as int)) == Some(routes@),
            failed matches Some(e) ==> table_routes(resolver, entries@.take(i as int)) is None
                && e is ConfigError,
        decreases entries@.len() - i,
    {
        let label = entries[i].0.as_str();
        let action = &entries[i].1;
        proof {
            assert(entries@.take(i + 1).drop_last() =~= entries@.take(i as int));
        }
        match resolve_label(resolver, label) {
            Ok(codes) => {
                if failed.is_none() {
                    let ghost before = routes@;
                    let mut k: usize = 0;
                    while k < codes.len()
                        invariant
                            0 <= k <= codes@.len(),
                            routes@ == before + codes@.take(k as int).map_values(
                                |c: u16| (c, *action),
                            ),
                        decreases codes@.len() - k,
                    {
                        routes.push((codes[k], action.duplicate()));
                        assert(codes@.take(k + 1).map_values(|c: u16| (c, *action)) =~= codes@.take(
                            k as int,
                        ).map_values(|c: u16| (c, *action)).push((codes@[k as int], *action)));
                        k = k + 1;
                    }
                    assert(codes@.take(codes@.len() as int) =~= codes@);
                }
            },
            Err(error) => {
                let ignored = match action {
                    Action::NoAction => true,
                    _ => false,
                };
                if !ignored && failed.is_none() {
                    failed = Some(error);
                }
                proof {
                    if ignored {
                        assert(entry_routes(resolver, label@, *action) == Some(
                            Seq::<(u16, Action)>::empty(),
                        ));
                        assert(routes@ + Seq::<(u16, Action)>::empty() =~= routes@);
                    }
                }
            },
        }
        i = i + 1;
    }
    assert(entries@.take(entries@.len() as int) =~= entries@);
    if let Some(error) = failed {
        return Err(error);
    }
    if let Some(code) = first_duplicate(&routes) {
        return Err(
            ForgeError::ConfigError(
                message(
                    "multiple bindings resolve to evdev button code ",
                    crate::text::decimal(code as u64).as_str(),
                ),
            ),
        );
    }
    Ok(routes)
}

/// Resolves a mouse binding table.
pub fn resolve_config_bindings(bindings: &StrMap<Action>) -> (r: Result<Vec<(u16, Action)>>)
    ensures
        match spec_bindings_routes(KeyResolver::MouseButtons, bindings.entry_seq()) {
            Some(rs) => r matches Ok(v) && v@ == rs,
            None => r matches Err(ForgeError::ConfigError(_)),
        },
{
    resolve_bindings_with(bindings, KeyResolver::MouseButtons)
}

/// Default bindings and per-application profiles for the Linux action router.
#[derive(Clone, Debug, PartialEq, Eq)]
pub struct CaptureRouting {
    pub bindings: Vec<(u16, Action)>,
    pub profiles: Vec<AppProfile>,
}

/// The selected device of a configuration that captures events: capture
/// must be enabled and the selected device present and enabled.
pub open spec fn capture_device(config: Config) -> Option<DeviceConfig> {
    if !config.app_settings.capture_mouse_events {
        None
    } else {
        match lookup(config.devices.entry_seq(), config.selected_device@) {
            Some(d) => if d.enabled {
                Some(d)
            } else {
                None
            },
            None => None,
        }
    }
}

/// Every profile of a table resolves.
pub open spec fn profiles_resolve(entries: Seq<(String, ProfileConfig)>) -> bool {
    forall|i: int|
        0 <= i < entries.len() ==> spec_bindings_routes(
            KeyResolver::MouseButtons,
            (#[trigger] entries[i]).1.bindings.entry_seq(),
        ) is Some
}

/// The router profile built from a configured profile and its resolved routes.
pub open spec fn is_router_profile(p: AppProfile, id: String, config: ProfileConfig) -> bool {
    &&& p.id@ == id@
    &&& p.app_id == config.app_id
    &&& p.executable == config.executable
    &&& p.bindings@ == pairs_map(
        spec_bindings_routes(KeyResolver::MouseButtons, config.bindings.entry_seq())->0,
    )
}

fn clone_text(t: &Option<String>) -> (r: Option<String>)
    ensures
        r == *t,
{
    match t {
        Some(s) => Some(s.clone()),
        None => None,
    }
}

fn selected_capture_device(config: &Config) -> (r: Result<&DeviceConfig>)
    ensures
        match capture_device(*config) {
            Some(d) => r matches Ok(x) && *x == d,
            None => r matches Err(ForgeError::ConfigError(_)),
        },
{
    if !config.app_settings.capture_mouse_events {
        return Err(ForgeError::ConfigError("app_settings.capture_mouse_events is disabled".to_owned()));
    }
    let device = match config.devices.get(config.selected_device.as_str()) {
        Some(device) => device,
        None => {
            let mut m = message("selected_device ", config.selected_device.as_str());
            m.append(" is missing from devices");
            return Err(ForgeError::ConfigError(m));
        },
    };
    if !device.enabled {
        let mut m = message("selected device ", config.selected_device.as_str());
        m.append(" is disabled");
        return Err(ForgeError::ConfigError(m));
    }
    Ok(device)
}

/// Builds the Linux action router inputs for the selected configured device.
///
/// Known bindings set to `None` remain captured and suppress their physical
/// input. Unknown vendor-specific controls set to `None` are ignored.
pub fn capture_routing_from_config(config: &Config) -> (r: Result<CaptureRouting>)
    ensures
        match capture_device(*config) {
            None => r matches Err(ForgeError::ConfigError(_)),
            Some(d) => {
                let routes = spec_bindings_routes(KeyResolver::MouseButtons, d.bindings.entry_seq());
                if routes is Some && profiles_resolve(d.profiles.entry_seq()) {
                    r matches Ok(routing) && routing.bindings@ == routes->0
                        && routing.profiles@.len() == d.profiles.entry_seq().len() && forall|i: int|
                        0 <= i < routing.profiles@.len() ==> is_router_profile(
                            #[trigger] routing.profiles@[i],
                            d.profiles.entry_seq()[i].0,
                            d.profiles.entry_seq()[i].1,
                        )
                } else {
                    r matches Err(ForgeError::ConfigError(_))
                }
            },
        },
{
    let device = selected_capture_device(config)?;
    let bindings = resolve_config_bindings(&device.bindings)?;
    let entries = device.profiles.entries();
    let mut profiles: Vec<AppProfile> = Vec::new();
    let mut i: usize = 0;
    while i < entries.len()
        invariant
            entries@ == device.profiles.entry_seq(),
            capture_device(*config) == Some(*device),
            0 <= i <= entries@.len(),
            profiles@.len() == i,
            forall|j: int|
                0 <= j < i ==> spec_bindings_routes(
                    KeyResolver::MouseButtons,
                    (#[trigger] entries@[j]).1.bindings.entry_seq(),
                ) is Some,
            forall|j: int|
                0 <= j < i ==> is_router_profile(
                    #[trigger] profiles@[j],
                    entries@[j].0,
                    entries@[j].1,
                ),
        decreases entries@.len() - i,
    {
        let profile = &entries[i].1;
        let routes = match resolve_config_bindings(&profile.bindings) {
            Ok(routes) => routes,
            Err(error) => {
                assert(spec_bindings_routes(
                    KeyResolver::MouseButtons,
                    entries@[i as int].1.bindings.entry_seq(),
                ) is None);
                assert(!profiles_resolve(entries@));
                return Err(error);
            },
        };
        profiles.push(
            AppProfile {
                id: entries[i].0.clone(),
                app_id: clone_text(&profile.app_id),
                executable: clone_text(&profile.executable),
                bindings: map_from_pairs(&routes),
            },
        );
        i = i + 1;
    }
    Ok(CaptureRouting { bindings, profiles })
}

/// Builds F-row capture bindings from the selected device's keyboard section.
pub fn keyboard_capture_routing_from_config(config: &Config) -> (r: Result<CaptureRouting>)
    ensures
        match capture_device(*config) {
            None => r matches Err(ForgeError::ConfigError(_)),
            Some(d) => match d.keyboard {
                None => r matches Err(ForgeError::ConfigError(_)),
                Some(k) => match spec_bindings_routes(
                    KeyResolver::FunctionKeys,
                    k.bindings.entry_seq(),
                ) {
                    Some(rs) => r matches Ok(routing) && routing.bindings@ == rs
                        && routing.profiles@.len() == 0,
                    None => r matches Err(ForgeError::ConfigError(_)),
                },
            },
        },
{
    let device = selected_capture_device(config)?;
    let keyboard = match &device.keyboard {
        Some(keyboard) => keyboard,
        None => {
            let mut m = message("selected device ", config.selected_device.as_str());
            m.append(" has no keyboard configuration");
            return Err(ForgeError::ConfigError(m));
        },
    };
    let bindings = resolve_bindings_with(&keyboard.bindings, KeyResolver::FunctionKeys)?;
    Ok(CaptureRouting { bindings, profiles: Vec::new() })
}


/// `str::parse::<u32>`: an optional `+` and decimal digits naming a value below 2^32.
#[verifier::external_body]
fn parse_decimal_u32(s: &str) -> (r: Option<u32>)
    ensures
        match spec_parse_unsigned(s@, 10, 0xffff_ffff) {
            Some(v) => r == Some(v as u32),
            None => r is None,
        },
{
    s.parse::<u32>().ok()
}

/// The process id the foreground query printed, surrounded by white space.
pub fn parse_pid(output: &str) -> (r: Result<u32>)
    ensures
        match spec_parse_unsigned(trim_seq(output@), 10, 0xffff_ffff) {
            Some(v) => r == Ok::<u32, ForgeError>(v as u32),
            None => r matches Err(ForgeError::InvalidResponse(_)),
        },
{
    let t = trim(output);
    match parse_decimal_u32(t) {
        Some(pid) => Ok(pid),
        None => Err(ForgeError::InvalidResponse(message("xdotool returned invalid PID ", t))),
    }
}

/// The identity of a foreground process: its executable path is its stable
/// id; its name is the kernel's command name, else the executable's file
/// name, else `unknown`, without surrounding white space.
pub fn process_identity_from(executable: &str, comm: Option<&str>, file_name: Option<&str>) -> (r: AppIdentity)
    ensures
        r.id@ == executable@,
        r.executable matches Some(x) && x@ == executable@,
        r.name@ == trim_seq(
            match comm {
                Some(c) => c@,
                None => match file_name {
                    Some(f) => f@,
                    None => "unknown"@,
                },
            },
        ),
{
    let source = match comm {
        Some(c) => c,
        None => match file_name {
            Some(f) => f,
            None => "unknown",
        },
    };
    AppIdentity {
        id: executable.to_owned(),
        name: trim(source).to_owned(),
        executable: Some(executable.to_owned()),
    }
}

} // verus!
