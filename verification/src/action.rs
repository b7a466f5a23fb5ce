use vstd::prelude::*;

use crate::error::{ForgeError, Result};
use crate::text::{
    is_white_space, trim_end_seq,
    ascii_lower, eq_ignore_ascii_case, eq_ignore_case, message, str_eq, to_ascii_lowercase, trim, trim_seq,
    trim_start,
    trim_start_seq,
};

verus! {

/// An action that a button or key can be mapped to, with its stable label.
#[derive(Clone, Debug, PartialEq, Eq)]
pub enum Action {
    NoAction,
    BrowserBack,
    BrowserForward,
    MissionControl,
    AppExpose,
    CaptureRegion,
    Copy,
    Paste,
    Undo,
    Redo,
    ShowDesktop,
    CycleDpiPresets,
    ToggleSmartShift,
    PrevTrack,
    PlayPause,
    NextTrack,
    VolumeUp,
    VolumeDown,
    MuteVolume,
    CustomShortcut(String),
    HoldShortcut(String),
}

/// The abstract value of an [`Action`]: shortcut texts as character sequences.
pub ghost enum ActionView {
    NoAction,
    BrowserBack,
    BrowserForward,
    MissionControl,
    AppExpose,
    CaptureRegion,
    Copy,
    Paste,
    Undo,
    Redo,
    ShowDesktop,
    CycleDpiPresets,
    ToggleSmartShift,
    PrevTrack,
    PlayPause,
    NextTrack,
    VolumeUp,
    VolumeDown,
    MuteVolume,
    CustomShortcut(Seq<char>),
    HoldShortcut(Seq<char>),
}

impl View for Action {
    type V = ActionView;

    open spec fn view(&self) -> ActionView {
        match self {
            Action::NoAction => ActionView::NoAction,
            Action::BrowserBack => ActionView::BrowserBack,
            Action::BrowserForward => ActionView::BrowserForward,
            Action::MissionControl => ActionView::MissionControl,
            Action::AppExpose => ActionView::AppExpose,
            Action::CaptureRegion => ActionView::CaptureRegion,
            Action::Copy => ActionView::Copy,
            Action::Paste => ActionView::Paste,
            Action::Undo => ActionView::Undo,
            Action::Redo => ActionView::Redo,
            Action::ShowDesktop => ActionView::ShowDesktop,
            Action::CycleDpiPresets => ActionView::CycleDpiPresets,
            Action::ToggleSmartShift => ActionView::ToggleSmartShift,
            Action::PrevTrack => ActionView::PrevTrack,
            Action::PlayPause => ActionView::PlayPause,
            Action::NextTrack => ActionView::NextTrack,
            Action::VolumeUp => ActionView::VolumeUp,
            Action::VolumeDown => ActionView::VolumeDown,
            Action::MuteVolume => ActionView::MuteVolume,
            Action::CustomShortcut(s) => ActionView::CustomShortcut(s@),
            Action::HoldShortcut(s) => ActionView::HoldShortcut(s@),
        }
    }
}

/// The action whose label is exactly `t`, among the actions without a shortcut.
pub open spec fn spec_builtin(t: Seq<char>) -> Option<ActionView> {
    if t == "None"@ {
        Some(ActionView::NoAction)
    } else if t == "BrowserBack"@ {
        Some(ActionView::BrowserBack)
    } else if t == "BrowserForward"@ {
        Some(ActionView::BrowserForward)
    } else if t == "MissionControl"@ {
        Some(ActionView::MissionControl)
    } else if t == "AppExpose"@ {
        Some(ActionView::AppExpose)
    } else if t == "CaptureRegion"@ {
        Some(ActionView::CaptureRegion)
    } else if t == "Copy"@ {
        Some(ActionView::Copy)
    } else if t == "Paste"@ {
        Some(ActionView::Paste)
    } else if t == "Undo"@ {
        Some(ActionView::Undo)
    } else if t == "Redo"@ {
        Some(ActionView::Redo)
    } else if t == "ShowDesktop"@ {
        Some(ActionView::ShowDesktop)
    } else if t == "CycleDpiPresets"@ {
        Some(ActionView::CycleDpiPresets)
    } else if t == "ToggleSmartShift"@ {
        Some(ActionView::ToggleSmartShift)
    } else if t == "PrevTrack"@ {
        Some(ActionView::PrevTrack)
    } else if t == "PlayPause"@ {
        Some(ActionView::PlayPause)
    } else if t == "NextTrack"@ {
        Some(ActionView::NextTrack)
    } else if t == "VolumeUp"@ {
        Some(ActionView::VolumeUp)
    } else if t == "VolumeDown"@ {
        Some(ActionView::VolumeDown)
    } else if t == "MuteVolume"@ {
        Some(ActionView::MuteVolume)
    } else {
        None
    }
}

/// The action a label names: the label is trimmed; a shortcut label is its
/// prefix followed by a key sequence that is not blank.
pub open spec fn spec_parse_action(s: Seq<char>) -> Option<ActionView> {
    let v = trim_seq(s);
    if spec_builtin(v) is Some {
        spec_builtin(v)
    } else if v.len() >= 15 && v.take(15) == "CustomShortcut:"@ {
        let rest = trim_start_seq(v.skip(15));
        if trim_seq(rest).len() == 0 {
            None
        } else {
            Some(ActionView::CustomShortcut(rest))
        }
    } else if v.len() >= 13 && v.take(13) == "HoldShortcut:"@ {
        let rest = trim_start_seq(v.skip(13));
        if trim_seq(rest).len() == 0 {
            None
        } else {
            Some(ActionView::HoldShortcut(rest))
        }
    } else {
        None
    }
}

/// The stable label of an action.
pub open spec fn spec_action_label(a: ActionView) -> Seq<char> {
    match a {
        ActionView::NoAction => "None"@,
        ActionView::BrowserBack => "BrowserBack"@,
        ActionView::BrowserForward => "BrowserForward"@,
        ActionView::MissionControl => "MissionControl"@,
        ActionView::AppExpose => "AppExpose"@,
        ActionView::CaptureRegion => "CaptureRegion"@,
        ActionView::Copy => "Copy"@,
        ActionView::Paste => "Paste"@,
        ActionView::Undo => "Undo"@,
        ActionView::Redo => "Redo"@,
        ActionView::ShowDesktop => "ShowDesktop"@,
        ActionView::CycleDpiPresets => "CycleDpiPresets"@,
        ActionView::ToggleSmartShift => "ToggleSmartShift"@,
        ActionView::PrevTrack => "PrevTrack"@,
        ActionView::PlayPause => "PlayPause"@,
        ActionView::NextTrack => "NextTrack"@,
        ActionView::VolumeUp => "VolumeUp"@,
        ActionView::VolumeDown => "VolumeDown"@,
        ActionView::MuteVolume => "MuteVolume"@,
        ActionView::CustomShortcut(s) => "CustomShortcut: "@ + s,
        ActionView::HoldShortcut(s) => "HoldShortcut: "@ + s,
    }
}

fn builtin_action(t: &str) -> (r: Option<Action>)
    ensures
        match spec_builtin(t@) {
            Some(a) => r matches Some(x) && x@ == a,
            None => r is None,
        },
{
    if str_eq(t, "None") {
        Some(Action::NoAction)
    } else if str_eq(t, "BrowserBack") {
        Some(Action::BrowserBack)
    } else if str_eq(t, "BrowserForward") {
        Some(Action::BrowserForward)
    } else if str_eq(t, "MissionControl") {
        Some(Action::MissionControl)
    } else if str_eq(t, "AppExpose") {
        Some(Action::AppExpose)
    } else if str_eq(t, "CaptureRegion") {
        Some(Action::CaptureRegion)
    } else if str_eq(t, "Copy") {
        Some(Action::Copy)
    } else if str_eq(t, "Paste") {
        Some(Action::Paste)
    } else if str_eq(t, "Undo") {
        Some(Action::Undo)
    } else if str_eq(t, "Redo") {
        Some(Action::Redo)
    } else if str_eq(t, "ShowDesktop") {
        Some(Action::ShowDesktop)
    } else if str_eq(t, "CycleDpiPresets") {
        Some(Action::CycleDpiPresets)
    } else if str_eq(t, "ToggleSmartShift") {
        Some(Action::ToggleSmartShift)
    } else if str_eq(t, "PrevTrack") {
        Some(Action::PrevTrack)
    } else if str_eq(t, "PlayPause") {
        Some(Action::PlayPause)
    } else if str_eq(t, "NextTrack") {
        Some(Action::NextTrack)
    } else if str_eq(t, "VolumeUp") {
        Some(Action::VolumeUp)
    } else if str_eq(t, "VolumeDown") {
        Some(Action::VolumeDown)
    } else if str_eq(t, "MuteVolume") {
        Some(Action::MuteVolume)
    } else {
        None
    }
}

/// The text after a prefix of `n` characters when `t` starts with `prefix`.
fn after_prefix<'a>(t: &'a str, prefix: &str, n: usize) -> (r: Option<&'a str>)
    requires
        prefix@.len() == n,
    ensures
        match r {
            Some(rest) => t@.len() >= n && t@.take(n as int) == prefix@ && rest@ == t@.skip(
                n as int,
            ),
            None => !(t@.len() >= n && t@.take(n as int) == prefix@),
        },
{
    let len = t.unicode_len();
    if len < n {
        return None;
    }
    let head = t.substring_char(0, n);
    assert(head@ == t@.take(n as int));
    if str_eq(head, prefix) {
        Some(t.substring_char(n, len))
    } else {
        None
    }
}


#[derive(Clone, Copy, Debug, PartialEq, Eq, Structural)]
pub enum InputKey {
    Back,
    Forward,
    Copy,
    Paste,
    Undo,
    Redo,
    ShowDesktop,
    MissionControl,
    AppExpose,
    PlayPause,
    PrevTrack,
    NextTrack,
    VolumeUp,
    VolumeDown,
    Mute,
    Ctrl,
    Shift,
    Alt,
    Meta,
    Space,
    Up,
    Down,
    Key(char),
}

#[derive(Clone, Copy, Debug, PartialEq, Eq, Structural)]
pub enum DeviceAction {
    CycleDpiPresets,
    ToggleSmartShift,
}

/// A platform-neutral input command.
#[derive(Clone, Debug, PartialEq, Eq)]
pub enum InputCommand {
    Noop,
    Tap(InputKey),
    Chord(Vec<InputKey>),
    HoldChord(Vec<InputKey>),
    Device(DeviceAction),
}

/// The abstract value of an [`InputCommand`].
pub ghost enum CommandView {
    Noop,
    Tap(InputKey),
    Chord(Seq<InputKey>),
    HoldChord(Seq<InputKey>),
    Device(DeviceAction),
}

impl View for InputCommand {
    type V = CommandView;

    open spec fn view(&self) -> CommandView {
        match self {
            InputCommand::Noop => CommandView::Noop,
            InputCommand::Tap(k) => CommandView::Tap(*k),
            InputCommand::Chord(keys) => CommandView::Chord(keys@),
            InputCommand::HoldChord(keys) => CommandView::HoldChord(keys@),
            InputCommand::Device(d) => CommandView::Device(*d),
        }
    }
}

/// Whether `c` is an ASCII letter or digit.
pub open spec fn is_ascii_alphanumeric(c: char) -> bool {
    ('0' <= c <= '9') || ('a' <= c <= 'z') || ('A' <= c <= 'Z')
}

/// The key one trimmed, non-blank shortcut token names; letters and digits name themselves.
pub open spec fn spec_token_key(t: Seq<char>) -> Option<InputKey> {
    if eq_ignore_case(t, "ctrl"@) || eq_ignore_case(t, "control"@) {
        Some(InputKey::Ctrl)
    } else if eq_ignore_case(t, "shift"@) {
        Some(InputKey::Shift)
    } else if eq_ignore_case(t, "alt"@) || eq_ignore_case(t, "option"@) {
        Some(InputKey::Alt)
    } else if eq_ignore_case(t, "cmd"@) || eq_ignore_case(t, "command"@) || eq_ignore_case(
        t,
        "meta"@,
    ) || eq_ignore_case(t, "super"@) {
        Some(InputKey::Meta)
    } else if eq_ignore_case(t, "space"@) {
        Some(InputKey::Space)
    } else if t.len() == 1 && is_ascii_alphanumeric(t[0]) {
        Some(InputKey::Key(ascii_lower(t[0])))
    } else {
        None
    }
}

/// The pieces of `s` between `+` separators, in order; a text without `+` is one piece.
pub open spec fn plus_pieces(s: Seq<char>) -> Seq<Seq<char>>
    decreases s.len(),
{
    if s.len() == 0 {
        seq![Seq::<char>::empty()]
    } else {
        let prior = plus_pieces(s.drop_last());
        if s.last() == '+' {
            prior.push(Seq::<char>::empty())
        } else {
            prior.update(prior.len() - 1, prior.last().push(s.last()))
        }
    }
}

/// The keys of a list of pieces: blank pieces are skipped, and one unknown
/// token makes the whole list invalid.
pub open spec fn pieces_keys(pieces: Seq<Seq<char>>) -> Option<Seq<InputKey>>
    decreases pieces.len(),
{
    if pieces.len() == 0 {
        Some(Seq::<InputKey>::empty())
    } else {
        match pieces_keys(pieces.drop_last()) {
            None => None,
            Some(keys) => {
                let t = trim_seq(pieces.last());
                if t.len() == 0 {
                    Some(keys)
                } else {
                    match spec_token_key(t) {
                        Some(k) => Some(keys.push(k)),
                        None => None,
                    }
                }
            },
        }
    }
}

/// Why a list of pieces is refused: the first non-blank token that names no
/// key, reported in lower case.
pub open spec fn pieces_refusal(pieces: Seq<Seq<char>>) -> Option<Seq<char>>
    decreases pieces.len(),
{
    if pieces.len() == 0 {
        None
    } else {
        match pieces_refusal(pieces.drop_last()) {
            Some(m) => Some(m),
            None => {
                let t = trim_seq(pieces.last());
                if t.len() > 0 && spec_token_key(t) is None {
                    Some("unsupported shortcut token "@ + t.map_values(|c: char| ascii_lower(c)))
                } else {
                    None
                }
            },
        }
    }
}

/// The message of a refused shortcut: its first unknown token, or that it
/// names no key at all.
pub open spec fn shortcut_refusal(s: Seq<char>) -> Seq<char> {
    match pieces_refusal(plus_pieces(s)) {
        Some(m) => m,
        None => "shortcut cannot be empty"@,
    }
}

/// The keys of a `+`-separated shortcut such as `Ctrl+Shift+P`; it must name at least one key.
pub open spec fn spec_parse_shortcut(s: Seq<char>) -> Option<Seq<InputKey>> {
    match pieces_keys(plus_pieces(s)) {
        Some(keys) => if keys.len() > 0 {
            Some(keys)
        } else {
            None
        },
        None => None,
    }
}

proof fn lemma_plus_pieces_nonempty(s: Seq<char>)
    ensures
        plus_pieces(s).len() >= 1,
    decreases s.len(),
{
    if s.len() > 0 {
        lemma_plus_pieces_nonempty(s.drop_last());
    }
}

fn token_key(t: &str) -> (r: Option<InputKey>)
    ensures
        r == spec_token_key(t@),
{
    if eq_ignore_ascii_case(t, "ctrl") || eq_ignore_ascii_case(t, "control") {
        Some(InputKey::Ctrl)
    } else if eq_ignore_ascii_case(t, "shift") {
        Some(InputKey::Shift)
    } else if eq_ignore_ascii_case(t, "alt") || eq_ignore_ascii_case(t, "option") {
        Some(InputKey::Alt)
    } else if eq_ignore_ascii_case(t, "cmd") || eq_ignore_ascii_case(t, "command")
        || eq_ignore_ascii_case(t, "meta") || eq_ignore_ascii_case(t, "super") {
        Some(InputKey::Meta)
    } else if eq_ignore_ascii_case(t, "space") {
        Some(InputKey::Space)
    } else if t.unicode_len() == 1 {
        let c = t.get_char(0);
        if ('0' <= c && c <= '9') || ('a' <= c && c <= 'z') {
            Some(InputKey::Key(c))
        } else if 'A' <= c && c <= 'Z' {
            Some(InputKey::Key(((c as u8) + 32) as char))
        } else {
            None
        }
    } else {
        None
    }
}

/// Parses a `+`-separated key sequence such as `Ctrl+Shift+P`.
pub fn parse_shortcut(value: &str) -> (r: Result<Vec<InputKey>>)
    ensures
        match spec_parse_shortcut(value@) {
            Some(keys) => r matches Ok(v) && v@ == keys,
            None => r matches Err(ForgeError::InvalidArgument(m)) && m@ == shortcut_refusal(value@),
        },
{
    let n = value.unicode_len();
    let mut keys: Vec<InputKey> = Vec::new();
    let mut failed: Option<String> = Option::None;
    let ghost mut finished: Seq<Seq<char>> = Seq::empty();
    let mut start: usize = 0;
    let mut i: usize = 0;
    proof {
        assert(value@.take(0) =~= Seq::<char>::empty());
        assert(value@.subrange(0, 0) =~= Seq::<char>::empty());
        assert(finished.push(value@.subrange(0, 0)) =~= seq![Seq::<char>::empty()]);
    }
    while i < n
        invariant
            n == value@.len(),
            0 <= start <= i <= n,
            plus_pieces(value@.take(i as int)) == finished.push(value@.subrange(start as int, i as int)),
            failed is None ==> pieces_keys(finished) == Some(keys@) && pieces_refusal(finished) is None,
            failed matches Some(m) ==> pieces_keys(finished) is None && pieces_refusal(finished) == Some(m@),
        decreases n - i,
    {
        let c = value.get_char(i);
        proof {
            assert(value@.take(i + 1).drop_last() =~= value@.take(i as int));
            assert(value@.take(i + 1).last() == c);
        }
        if c == '+' {
            let piece = value.substring_char(start, i);
            let t = trim(piece);
            let ghost pieces_before = finished;
            proof {
                finished = finished.push(piece@);
                assert(finished.drop_last() =~= pieces_before);
            }
            if t.unicode_len() != 0 && failed.is_none() {
                match token_key(t) {
                    Some(k) => keys.push(k),
                    Option::None => {
                        failed = Some(message("unsupported shortcut token ", to_ascii_lowercase(t).as_str()));
                    },
                }
            }
            start = i + 1;
            proof {
                assert(value@.subrange(start as int, i + 1) =~= Seq::<char>::empty());
                assert(plus_pieces(value@.take(i + 1)) =~= finished.push(
                    value@.subrange(start as int, i + 1),
                ));
            }
        } else {
            proof {
                let prior = plus_pieces(value@.take(i as int));
                assert(value@.subrange(start as int, i + 1) =~= value@.subrange(
                    start as int,
                    i as int,
                ).push(c));
                assert(plus_pieces(value@.take(i + 1)) =~= finished.push(
                    value@.subrange(start as int, i + 1),
                ));
            }
        }
        i = i + 1;
    }
    let piece = value.substring_char(start, n);
    let t = trim(piece);
    let ghost pieces_before = finished;
    proof {
        finished = finished.push(piece@);
        assert(finished.drop_last() =~= pieces_before);
        assert(value@.take(n as int) =~= value@);
    }
    if t.unicode_len() != 0 && failed.is_none() {
        match token_key(t) {
            Some(k) => keys.push(k),
            Option::None => {
                failed = Some(message("unsupported shortcut token ", to_ascii_lowercase(t).as_str()));
            },
        }
    }
    match failed {
        Some(m) => Err(ForgeError::InvalidArgument(m)),
        Option::None => {
            if keys.len() == 0 {
                Err(ForgeError::InvalidArgument("shortcut cannot be empty".to_owned()))
            } else {
                Ok(keys)
            }
        },
    }
}


/// The input command an action performs; `None` for a shortcut with an unknown token.
pub open spec fn spec_input_command(a: ActionView) -> Option<CommandView> {
    match a {
        ActionView::NoAction => Some(CommandView::Noop),
        ActionView::BrowserBack => Some(CommandView::Tap(InputKey::Back)),
        ActionView::BrowserForward => Some(CommandView::Tap(InputKey::Forward)),
        ActionView::MissionControl => Some(CommandView::Chord(seq![InputKey::Meta, InputKey::Up])),
        ActionView::AppExpose => Some(CommandView::Chord(seq![InputKey::Meta, InputKey::Down])),
        ActionView::CaptureRegion => Some(
            CommandView::Chord(seq![InputKey::Meta, InputKey::Shift, InputKey::Key('s')]),
        ),
        ActionView::Copy => Some(CommandView::Chord(seq![InputKey::Ctrl, InputKey::Key('c')])),
        ActionView::Paste => Some(CommandView::Chord(seq![InputKey::Ctrl, InputKey::Key('v')])),
        ActionView::Undo => Some(CommandView::Chord(seq![InputKey::Ctrl, InputKey::Key('z')])),
        ActionView::Redo => Some(CommandView::Chord(seq![InputKey::Ctrl, InputKey::Key('y')])),
        ActionView::ShowDesktop => Some(CommandView::Chord(seq![InputKey::Meta, InputKey::Key('d')])),
        ActionView::CycleDpiPresets => Some(CommandView::Device(DeviceAction::CycleDpiPresets)),
        ActionView::ToggleSmartShift => Some(CommandView::Device(DeviceAction::ToggleSmartShift)),
        ActionView::PrevTrack => Some(CommandView::Tap(InputKey::PrevTrack)),
        ActionView::PlayPause => Some(CommandView::Tap(InputKey::PlayPause)),
        ActionView::NextTrack => Some(CommandView::Tap(InputKey::NextTrack)),
        ActionView::VolumeUp => Some(CommandView::Tap(InputKey::VolumeUp)),
        ActionView::VolumeDown => Some(CommandView::Tap(InputKey::VolumeDown)),
        ActionView::MuteVolume => Some(CommandView::Tap(InputKey::Mute)),
        ActionView::CustomShortcut(s) => match spec_parse_shortcut(s) {
            Some(keys) => Some(CommandView::Chord(keys)),
            None => None,
        },
        ActionView::HoldShortcut(s) => match spec_parse_shortcut(s) {
            Some(keys) => Some(CommandView::HoldChord(keys)),
            None => None,
        },
    }
}

/// The message with which an action's command is refused: that of its
/// shortcut; the other actions are never refused.
pub open spec fn command_refusal(a: ActionView) -> Seq<char> {
    match a {
        ActionView::CustomShortcut(s) => shortcut_refusal(s),
        ActionView::HoldShortcut(s) => shortcut_refusal(s),
        _ => Seq::<char>::empty(),
    }
}

/// A piece of a shortcut that is blank once trimmed.
pub open spec fn blank_piece(p: Seq<char>) -> bool {
    trim_seq(p).len() == 0
}

/// A piece of a shortcut whose trimmed token names no key.
pub open spec fn unknown_piece(p: Seq<char>) -> bool {
    trim_seq(p).len() > 0 && spec_token_key(trim_seq(p)) is None
}

proof fn lemma_pieces(pieces: Seq<Seq<char>>)
    ensures
        pieces_keys(pieces) is None <==> exists|i: int| 0 <= i < pieces.len() && #[trigger] unknown_piece(pieces[i]),
        pieces_refusal(pieces) is Some <==> pieces_keys(pieces) is None,
        pieces_keys(pieces) matches Some(keys) ==> (keys.len() == 0 <==> forall|i: int|
            0 <= i < pieces.len() ==> #[trigger] blank_piece(pieces[i])),
    decreases pieces.len(),
{
    if pieces.len() > 0 {
        let prior = pieces.drop_last();
        lemma_pieces(prior);
        assert forall|i: int| 0 <= i < prior.len() implies prior[i] == pieces[i] by {}
        if pieces_keys(prior) is None {
            let i = choose|i: int| 0 <= i < prior.len() && #[trigger] unknown_piece(prior[i]);
            assert(unknown_piece(pieces[i]));
        } else {
            assert forall|i: int| 0 <= i < pieces.len() && #[trigger] unknown_piece(pieces[i]) implies i == pieces.len() - 1 by {
                if i < prior.len() {
                    assert(unknown_piece(prior[i]));
                }
            }
            assert(pieces.last() == pieces[pieces.len() - 1]);
            if unknown_piece(pieces.last()) {
                assert(unknown_piece(pieces[pieces.len() - 1]));
            }
            if pieces_keys(pieces) is Some {
                let keys = pieces_keys(pieces)->0;
                if keys.len() == 0 {
                    assert forall|i: int| 0 <= i < pieces.len() implies #[trigger] blank_piece(pieces[i]) by {
                        if i < prior.len() {
                            assert(blank_piece(prior[i]));
                        }
                    }
                } else if pieces_keys(prior)->0.len() == 0 {
                    assert(!blank_piece(pieces[pieces.len() - 1]));
                } else {
                    let j = choose|j: int| 0 <= j < prior.len() && !#[trigger] blank_piece(prior[j]);
                    assert(!blank_piece(pieces[j]));
                }
            }
        }
    }
}

/// The command table of the built-in actions: Copy is Ctrl+C, Paste
/// Ctrl+V, Undo Ctrl+Z, Redo Ctrl+Y, Show Desktop Meta+D, Mission Control
/// Meta+Up, App Exposé Meta+Down, Capture Region Meta+Shift+S; the browser
/// and media actions tap their key, the device actions go to the device and
/// `None` does nothing. The four editing actions press four different chords.
pub proof fn lemma_builtin_commands()
    ensures
        spec_input_command(ActionView::NoAction) == Some(CommandView::Noop),
        spec_input_command(ActionView::BrowserBack) == Some(CommandView::Tap(InputKey::Back)),
        spec_input_command(ActionView::BrowserForward) == Some(CommandView::Tap(InputKey::Forward)),
        spec_input_command(ActionView::MissionControl) == Some(CommandView::Chord(seq![InputKey::Meta, InputKey::Up])),
        spec_input_command(ActionView::AppExpose) == Some(CommandView::Chord(seq![InputKey::Meta, InputKey::Down])),
        spec_input_command(ActionView::CaptureRegion) == Some(
            CommandView::Chord(seq![InputKey::Meta, InputKey::Shift, InputKey::Key('s')]),
        ),
        spec_input_command(ActionView::Copy) == Some(CommandView::Chord(seq![InputKey::Ctrl, InputKey::Key('c')])),
        spec_input_command(ActionView::Paste) == Some(CommandView::Chord(seq![InputKey::Ctrl, InputKey::Key('v')])),
        spec_input_command(ActionView::Undo) == Some(CommandView::Chord(seq![InputKey::Ctrl, InputKey::Key('z')])),
        spec_input_command(ActionView::Redo) == Some(CommandView::Chord(seq![InputKey::Ctrl, InputKey::Key('y')])),
        spec_input_command(ActionView::ShowDesktop) == Some(CommandView::Chord(seq![InputKey::Meta, InputKey::Key('d')])),
        spec_input_command(ActionView::CycleDpiPresets) == Some(CommandView::Device(DeviceAction::CycleDpiPresets)),
        spec_input_command(ActionView::ToggleSmartShift) == Some(CommandView::Device(DeviceAction::ToggleSmartShift)),
        spec_input_command(ActionView::PrevTrack) == Some(CommandView::Tap(InputKey::PrevTrack)),
        spec_input_command(ActionView::PlayPause) == Some(CommandView::Tap(InputKey::PlayPause)),
        spec_input_command(ActionView::NextTrack) == Some(CommandView::Tap(InputKey::NextTrack)),
        spec_input_command(ActionView::VolumeUp) == Some(CommandView::Tap(InputKey::VolumeUp)),
        spec_input_command(ActionView::VolumeDown) == Some(CommandView::Tap(InputKey::VolumeDown)),
        spec_input_command(ActionView::MuteVolume) == Some(CommandView::Tap(InputKey::Mute)),
        forall|a: ActionView, b: ActionView|
            (a is Copy || a is Paste || a is Undo || a is Redo) && (b is Copy || b is Paste || b is Undo || b is Redo)
                && a != b ==> #[trigger] spec_input_command(a) != #[trigger] spec_input_command(b),
{
    assert forall|a: ActionView, b: ActionView|
        (a is Copy || a is Paste || a is Undo || a is Redo) && (b is Copy || b is Paste || b is Undo || b is Redo)
            && a != b implies #[trigger] spec_input_command(a) != #[trigger] spec_input_command(b) by {
        let ka = spec_input_command(a)->0->Chord_0;
        let kb = spec_input_command(b)->0->Chord_0;
        assert(ka[1] != kb[1]);
    }
}

/// A key a shortcut token can name: a modifier, space, a digit or a
/// lower-case letter.
pub open spec fn shortcut_key(k: InputKey) -> bool {
    ||| k is Ctrl ||| k is Shift ||| k is Alt ||| k is Meta ||| k is Space
    ||| (k matches InputKey::Key(c) && (('0' <= c <= '9') || ('a' <= c <= 'z')))
}

/// The keys an input command presses.
pub open spec fn command_keys(c: CommandView) -> Seq<InputKey> {
    match c {
        CommandView::Tap(k) => seq![k],
        CommandView::Chord(keys) => keys,
        CommandView::HoldChord(keys) => keys,
        _ => Seq::<InputKey>::empty(),
    }
}

/// Every key of a parsed shortcut is one a token can name.
pub proof fn lemma_shortcut_keys(s: Seq<char>)
    ensures
        spec_parse_shortcut(s) matches Some(keys) ==> forall|i: int| 0 <= i < keys.len() ==> #[trigger] shortcut_key(keys[i]),
{
    lemma_pieces_keys_named(plus_pieces(s));
}

proof fn lemma_pieces_keys_named(pieces: Seq<Seq<char>>)
    ensures
        pieces_keys(pieces) matches Some(keys) ==> forall|i: int| 0 <= i < keys.len() ==> #[trigger] shortcut_key(keys[i]),
    decreases pieces.len(),
{
    if pieces.len() > 0 {
        lemma_pieces_keys_named(pieces.drop_last());
        let t = trim_seq(pieces.last());
        if t.len() > 0 && spec_token_key(t) is Some {
            let k = spec_token_key(t)->0;
            if t.len() == 1 && is_ascii_alphanumeric(t[0]) {
                let c = t[0];
                if 'A' <= c <= 'Z' {
                    assert('a' <= ascii_lower(c) <= 'z');
                }
            }
            assert(shortcut_key(k));
        }
    }
}

/// The shortcut law: every action without a shortcut has a command; the
/// tap and hold forms of a shortcut accept the same keys and are refused
/// with the same message; a shortcut is refused exactly when it names no
/// key or has a token that names none; a letter or digit names itself in
/// lower case.
pub proof fn lemma_shortcut_law(a: ActionView, s: Seq<char>)
    ensures
        !(a is CustomShortcut) && !(a is HoldShortcut) ==> spec_input_command(a) is Some,
        forall|k: Seq<InputKey>|
            spec_input_command(ActionView::CustomShortcut(s)) == Some(CommandView::Chord(k))
                <==> spec_input_command(ActionView::HoldShortcut(s)) == Some(CommandView::HoldChord(k)),
        spec_input_command(ActionView::CustomShortcut(s)) is None <==> spec_input_command(
            ActionView::HoldShortcut(s),
        ) is None,
        command_refusal(ActionView::CustomShortcut(s)) == command_refusal(ActionView::HoldShortcut(s)),
        spec_parse_shortcut(s) is None <==> (forall|i: int|
            0 <= i < plus_pieces(s).len() ==> #[trigger] blank_piece(plus_pieces(s)[i])) || (exists|i: int|
            0 <= i < plus_pieces(s).len() && #[trigger] unknown_piece(plus_pieces(s)[i])),
        forall|c: char| #[trigger] is_ascii_alphanumeric(c) ==> spec_token_key(seq![c]) == Some(
            InputKey::Key(ascii_lower(c)),
        ),
{
    lemma_pieces(plus_pieces(s));
    reveal_strlit("ctrl");
    reveal_strlit("control");
    reveal_strlit("shift");
    reveal_strlit("alt");
    reveal_strlit("option");
    reveal_strlit("cmd");
    reveal_strlit("command");
    reveal_strlit("meta");
    reveal_strlit("super");
    reveal_strlit("space");
}

fn keys2(a: InputKey, b: InputKey) -> (r: Vec<InputKey>)
    ensures
        r@ == seq![a, b],
{
    let mut r = Vec::new();
    r.push(a);
    r.push(b);
    assert(r@ =~= seq![a, b]);
    r
}

impl Action {
    /// Parses the stable action labels used by the UI and TOML configuration.
    pub fn parse(value: &str) -> (r: Result<Action>)
        ensures
            match spec_parse_action(value@) {
                Some(a) => r matches Ok(x) && x@ == a,
                None => r matches Err(ForgeError::InvalidArgument(_)),
            },
    {
        let t = trim(value);
        if let Some(action) = builtin_action(t) {
            return Ok(action);
        }
        proof {
            reveal_strlit("CustomShortcut:");
            reveal_strlit("HoldShortcut:");
        }
        if let Some(rest) = after_prefix(t, "CustomShortcut:", 15) {
            let shortcut = trim_start(rest);
            if trim(shortcut).unicode_len() == 0 {
                return Err(ForgeError::InvalidArgument("shortcut cannot be empty".to_owned()));
            }
            return Ok(Action::CustomShortcut(shortcut.to_owned()));
        }
        if let Some(rest) = after_prefix(t, "HoldShortcut:", 13) {
            let shortcut = trim_start(rest);
            if trim(shortcut).unicode_len() == 0 {
                return Err(ForgeError::InvalidArgument("shortcut cannot be empty".to_owned()));
            }
            return Ok(Action::HoldShortcut(shortcut.to_owned()));
        }
        Err(ForgeError::InvalidArgument(message("unknown action ", t)))
    }


    /// Resolves an action into a platform-neutral input command.
    pub fn input_command(&self) -> (r: Result<InputCommand>)
        ensures
            match spec_input_command(self@) {
                Some(c) => r matches Ok(x) && x@ == c,
                None => r matches Err(ForgeError::InvalidArgument(m)) && m@ == command_refusal(self@),
            },
    {
        let command = match self {
            Action::NoAction => InputCommand::Noop,
            Action::BrowserBack => InputCommand::Tap(InputKey::Back),
            Action::BrowserForward => InputCommand::Tap(InputKey::Forward),
            Action::MissionControl => InputCommand::Chord(keys2(InputKey::Meta, InputKey::Up)),
            Action::AppExpose => InputCommand::Chord(keys2(InputKey::Meta, InputKey::Down)),
            Action::CaptureRegion => {
                let mut keys = keys2(InputKey::Meta, InputKey::Shift);
                keys.push(InputKey::Key('s'));
                assert(keys@ =~= seq![InputKey::Meta, InputKey::Shift, InputKey::Key('s')]);
                InputCommand::Chord(keys)
            },
            Action::Copy => InputCommand::Chord(keys2(InputKey::Ctrl, InputKey::Key('c'))),
            Action::Paste => InputCommand::Chord(keys2(InputKey::Ctrl, InputKey::Key('v'))),
            Action::Undo => InputCommand::Chord(keys2(InputKey::Ctrl, InputKey::Key('z'))),
            Action::Redo => InputCommand::Chord(keys2(InputKey::Ctrl, InputKey::Key('y'))),
            Action::ShowDesktop => InputCommand::Chord(keys2(InputKey::Meta, InputKey::Key('d'))),
            Action::CycleDpiPresets => InputCommand::Device(DeviceAction::CycleDpiPresets),
            Action::ToggleSmartShift => InputCommand::Device(DeviceAction::ToggleSmartShift),
            Action::PrevTrack => InputCommand::Tap(InputKey::PrevTrack),
            Action::PlayPause => InputCommand::Tap(InputKey::PlayPause),
            Action::NextTrack => InputCommand::Tap(InputKey::NextTrack),
            Action::VolumeUp => InputCommand::Tap(InputKey::VolumeUp),
            Action::VolumeDown => InputCommand::Tap(InputKey::VolumeDown),
            Action::MuteVolume => InputCommand::Tap(InputKey::Mute),
            Action::CustomShortcut(value) => InputCommand::Chord(parse_shortcut(value.as_str())?),
            Action::HoldShortcut(value) => InputCommand::HoldChord(parse_shortcut(value.as_str())?),
        };
        Ok(command)
    }

    pub fn is_hold(&self) -> (r: bool)
        ensures
            r == (self is HoldShortcut),
    {
        match self {
            Action::HoldShortcut(_) => true,
            _ => false,
        }
    }

    /// The key sequence text of a shortcut action.
    pub fn shortcut(&self) -> (r: Option<&str>)
        ensures
            match self@ {
                ActionView::CustomShortcut(s) => r matches Some(t) && t@ == s,
                ActionView::HoldShortcut(s) => r matches Some(t) && t@ == s,
                _ => r is None,
            },
    {
        match self {
            Action::CustomShortcut(value) => Some(value.as_str()),
            Action::HoldShortcut(value) => Some(value.as_str()),
            _ => None,
        }
    }

    /// The stable label of this action, as `parse` reads it.
    pub fn to_string(&self) -> (r: String)
        ensures
            r@ == spec_action_label(self@),
    {
        match self {
            Action::NoAction => "None".to_owned(),
            Action::BrowserBack => "BrowserBack".to_owned(),
            Action::BrowserForward => "BrowserForward".to_owned(),
            Action::MissionControl => "MissionControl".to_owned(),
            Action::AppExpose => "AppExpose".to_owned(),
            Action::CaptureRegion => "CaptureRegion".to_owned(),
            Action::Copy => "Copy".to_owned(),
            Action::Paste => "Paste".to_owned(),
            Action::Undo => "Undo".to_owned(),
            Action::Redo => "Redo".to_owned(),
            Action::ShowDesktop => "ShowDesktop".to_owned(),
            Action::CycleDpiPresets => "CycleDpiPresets".to_owned(),
            Action::ToggleSmartShift => "ToggleSmartShift".to_owned(),
            Action::PrevTrack => "PrevTrack".to_owned(),
            Action::PlayPause => "PlayPause".to_owned(),
            Action::NextTrack => "NextTrack".to_owned(),
            Action::VolumeUp => "VolumeUp".to_owned(),
            Action::VolumeDown => "VolumeDown".to_owned(),
            Action::MuteVolume => "MuteVolume".to_owned(),
            Action::CustomShortcut(value) => message("CustomShortcut: ", value.as_str()),
            Action::HoldShortcut(value) => message("HoldShortcut: ", value.as_str()),
        }
    }

    /// A copy of this action with the same value.
    pub fn duplicate(&self) -> (r: Action)
        ensures
            r == *self,
    {
        match self {
            Action::NoAction => Action::NoAction,
            Action::BrowserBack => Action::BrowserBack,
            Action::BrowserForward => Action::BrowserForward,
            Action::MissionControl => Action::MissionControl,
            Action::AppExpose => Action::AppExpose,
            Action::CaptureRegion => Action::CaptureRegion,
            Action::Copy => Action::Copy,
            Action::Paste => Action::Paste,
            Action::Undo => Action::Undo,
            Action::Redo => Action::Redo,
            Action::ShowDesktop => Action::ShowDesktop,
            Action::CycleDpiPresets => Action::CycleDpiPresets,
            Action::ToggleSmartShift => Action::ToggleSmartShift,
            Action::PrevTrack => Action::PrevTrack,
            Action::PlayPause => Action::PlayPause,
            Action::NextTrack => Action::NextTrack,
            Action::VolumeUp => Action::VolumeUp,
            Action::VolumeDown => Action::VolumeDown,
            Action::MuteVolume => Action::MuteVolume,
            Action::CustomShortcut(value) => Action::CustomShortcut(value.clone()),
            Action::HoldShortcut(value) => Action::HoldShortcut(value.clone()),
        }
    }
}


/// A shortcut text that a label carries unchanged: not blank, and without
/// leading or trailing white space.
pub open spec fn is_plain_shortcut(s: Seq<char>) -> bool {
    s.len() > 0 && trim_seq(s) == s
}

/// An action whose label `parse` reads back: every action without a
/// shortcut, and every shortcut whose text is plain.
pub open spec fn has_plain_label(a: ActionView) -> bool {
    match a {
        ActionView::CustomShortcut(s) => is_plain_shortcut(s),
        ActionView::HoldShortcut(s) => is_plain_shortcut(s),
        _ => true,
    }
}

proof fn lemma_trim_start_len(s: Seq<char>)
    ensures
        trim_start_seq(s).len() <= s.len(),
        s.len() > 0 && is_white_space(s[0]) ==> trim_start_seq(s).len() < s.len(),
    decreases s.len(),
{
    if s.len() > 0 && is_white_space(s[0]) {
        lemma_trim_start_len(s.drop_first());
    }
}

proof fn lemma_trim_end_len(s: Seq<char>)
    ensures
        trim_end_seq(s).len() <= s.len(),
        s.len() > 0 && is_white_space(s.last()) ==> trim_end_seq(s).len() < s.len(),
    decreases s.len(),
{
    if s.len() > 0 && is_white_space(s.last()) {
        lemma_trim_end_len(s.drop_last());
    }
}

/// A plain text starts and ends with a character that is not white space.
proof fn lemma_plain_edges(s: Seq<char>)
    requires
        is_plain_shortcut(s),
    ensures
        !is_white_space(s[0]),
        !is_white_space(s.last()),
        trim_start_seq(s) == s,
        trim_end_seq(s) == s,
{
    lemma_trim_start_len(s);
    lemma_trim_end_len(trim_start_seq(s));
    if is_white_space(s[0]) {
        assert(false);
    }
    assert(trim_start_seq(s) == s);
    if is_white_space(s.last()) {
        lemma_trim_end_len(s);
        assert(false);
    }
}

/// A text whose first and last characters are not white space is its own trim.
proof fn lemma_trim_fixed(s: Seq<char>)
    requires
        s.len() > 0,
        !is_white_space(s[0]),
        !is_white_space(s.last()),
    ensures
        trim_seq(s) == s,
{
    assert(trim_start_seq(s) == s);
}

proof fn lemma_shortcut_label(prefix: Seq<char>, s: Seq<char>, n: int)
    requires
        is_plain_shortcut(s),
        n + 1 == prefix.len(),
        prefix.len() > 1,
        prefix[n] == ' ',
        !is_white_space(prefix[0]),
    ensures
        trim_seq(prefix + s) == prefix + s,
        (prefix + s).take(n) == prefix.take(n),
        trim_start_seq((prefix + s).skip(n)) == s,
{
    lemma_plain_edges(s);
    let label = prefix + s;
    assert(label.last() == s.last());
    lemma_trim_fixed(label);
    assert(label.take(n) =~= prefix.take(n));
    let after = label.skip(n);
    assert(after.drop_first() =~= s);
    assert(is_white_space(after[0]));
}

/// Reading an action's label gives the action back, for every action
/// whose shortcut text, if any, is not blank and not padded with white space.
pub proof fn lemma_label_round_trip(a: ActionView)
    requires
        has_plain_label(a),
    ensures
        spec_parse_action(spec_action_label(a)) == Some(a),
{
    reveal_strlit("None");
    reveal_strlit("BrowserBack");
    reveal_strlit("BrowserForward");
    reveal_strlit("MissionControl");
    reveal_strlit("AppExpose");
    reveal_strlit("CaptureRegion");
    reveal_strlit("Copy");
    reveal_strlit("Paste");
    reveal_strlit("Undo");
    reveal_strlit("Redo");
    reveal_strlit("ShowDesktop");
    reveal_strlit("CycleDpiPresets");
    reveal_strlit("ToggleSmartShift");
    reveal_strlit("PrevTrack");
    reveal_strlit("PlayPause");
    reveal_strlit("NextTrack");
    reveal_strlit("VolumeUp");
    reveal_strlit("VolumeDown");
    reveal_strlit("MuteVolume");
    reveal_strlit("CustomShortcut: ");
    reveal_strlit("HoldShortcut: ");
    reveal_strlit("CustomShortcut:");
    reveal_strlit("HoldShortcut:");
    let label = spec_action_label(a);
    match a {
        ActionView::CustomShortcut(s) => {
            lemma_shortcut_label("CustomShortcut: "@, s, 15);
            assert("CustomShortcut: "@.take(15) =~= "CustomShortcut:"@);
            assert(spec_builtin(label) is None);
        },
        ActionView::HoldShortcut(s) => {
            lemma_shortcut_label("HoldShortcut: "@, s, 13);
            assert("HoldShortcut: "@.take(13) =~= "HoldShortcut:"@);
            assert(label[0] == 'H');
            assert(spec_builtin(label) is None);
            assert(label.take(15) != "CustomShortcut:"@) by {
                if label.len() >= 15 {
                    assert(label.take(15)[0] == 'H');
                }
            }
        },
        _ => {
            lemma_trim_fixed(label);
        },
    }
}

} // verus!
