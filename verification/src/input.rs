use evdev::EventType;
use vstd::prelude::*;

use crate::action::{Action, CommandView, DeviceAction, InputCommand, InputKey, command_refusal, spec_input_command};
use crate::error::{ForgeError, Result};
use crate::router::{ActionRouter, ButtonEvent, Dispatch, DispatchView, spec_dispatch};

verus! {

/// Key events that the virtual device emits together, each with the same
/// value: 1 presses, 0 releases.
#[derive(Clone, Debug, PartialEq, Eq)]
pub struct KeyBatch {
    pub keys: Vec<InputKey>,
    pub value: i32,
}

pub ghost struct BatchView {
    pub keys: Seq<InputKey>,
    pub value: i32,
}

impl View for KeyBatch {
    type V = BatchView;

    open spec fn view(&self) -> BatchView {
        BatchView { keys: self.keys@, value: self.value }
    }
}

/// The batches of a tap: a key is pressed and released; a chord is pressed
/// in order and released in reverse order. Device actions are not input.
pub open spec fn command_taps(c: CommandView) -> Option<Seq<BatchView>> {
    match c {
        CommandView::Noop => Some(seq![]),
        CommandView::Tap(k) => Some(
            seq![BatchView { keys: seq![k], value: 1 }, BatchView { keys: seq![k], value: 0 }],
        ),
        CommandView::Chord(keys) => Some(
            seq![BatchView { keys, value: 1 }, BatchView { keys: keys.reverse(), value: 0 }],
        ),
        CommandView::HoldChord(keys) => Some(
            seq![BatchView { keys, value: 1 }, BatchView { keys: keys.reverse(), value: 0 }],
        ),
        CommandView::Device(_) => None,
    }
}

/// The batch of one edge of a hold: every key of the command with `value`.
pub open spec fn command_edges(c: CommandView, value: i32) -> Option<Seq<BatchView>> {
    match c {
        CommandView::Noop => Some(seq![]),
        CommandView::Tap(k) => Some(seq![BatchView { keys: seq![k], value }]),
        CommandView::Chord(keys) => Some(seq![BatchView { keys, value }]),
        CommandView::HoldChord(keys) => Some(seq![BatchView { keys, value }]),
        CommandView::Device(_) => None,
    }
}

/// What the virtual device emits for a dispatch, or `None` for a device
/// action, which only the resident agent performs.
pub open spec fn spec_emit_plan(d: DispatchView) -> Option<Seq<BatchView>> {
    match d {
        DispatchView::Consume => Some(seq![]),
        DispatchView::Tap(c) => command_taps(c),
        DispatchView::HoldStart(c) => command_edges(c, 1),
        DispatchView::HoldEnd(c) => command_edges(c, 0),
    }
}

/// The views of a list of batches.
pub open spec fn batch_views(v: Seq<KeyBatch>) -> Seq<BatchView> {
    v.map_values(|b: KeyBatch| b@)
}

fn copy_keys(keys: &Vec<InputKey>) -> (r: Vec<InputKey>)
    ensures
        r@ == keys@,
{
    let mut r: Vec<InputKey> = Vec::new();
    let mut i: usize = 0;
    while i < keys.len()
        invariant
            0 <= i <= keys@.len(),
            r@ == keys@.take(i as int),
        decreases keys@.len() - i,
    {
        r.push(keys[i]);
        assert(keys@.take(i + 1) =~= keys@.take(i as int).push(keys@[i as int]));
        i = i + 1;
    }
    assert(keys@.take(keys@.len() as int) =~= keys@);
    r
}

fn reversed_keys(keys: &Vec<InputKey>) -> (r: Vec<InputKey>)
    ensures
        r@ == keys@.reverse(),
{
    let mut r: Vec<InputKey> = Vec::new();
    let mut i: usize = keys.len();
    while i > 0
        invariant
            0 <= i <= keys@.len(),
            r@.len() == keys@.len() - i,
            forall|j: int| 0 <= j < r@.len() ==> r@[j] == keys@[keys@.len() - 1 - j],
        decreases i,
    {
        i = i - 1;
        r.push(keys[i]);
    }
    assert(r@ =~= keys@.reverse());
    r
}

fn device_refusal(action: DeviceAction) -> (e: ForgeError)
    ensures
        e matches ForgeError::InvalidArgument(_),
{
    let text = match action {
        DeviceAction::CycleDpiPresets => "device action CycleDpiPresets must be dispatched by the resident agent",
        DeviceAction::ToggleSmartShift => "device action ToggleSmartShift must be dispatched by the resident agent",
    };
    ForgeError::InvalidArgument(text.to_owned())
}

fn one_key(key: InputKey, value: i32) -> (b: KeyBatch)
    ensures
        b@ == (BatchView { keys: seq![key], value }),
{
    let mut keys: Vec<InputKey> = Vec::new();
    keys.push(key);
    assert(keys@ =~= seq![key]);
    KeyBatch { keys, value }
}

fn tap_batches(command: &InputCommand) -> (r: Result<Vec<KeyBatch>>)
    ensures
        match command_taps(command@) {
            Some(p) => r matches Ok(v) && batch_views(v@) == p,
            None => r matches Err(ForgeError::InvalidArgument(_)),
        },
{
    let mut plan: Vec<KeyBatch> = Vec::new();
    match command {
        InputCommand::Noop => {},
        InputCommand::Tap(key) => {
            plan.push(one_key(*key, 1));
            plan.push(one_key(*key, 0));
        },
        InputCommand::Chord(keys) | InputCommand::HoldChord(keys) => {
            plan.push(KeyBatch { keys: copy_keys(keys), value: 1 });
            plan.push(KeyBatch { keys: reversed_keys(keys), value: 0 });
        },
        InputCommand::Device(action) => {
            return Err(device_refusal(*action));
        },
    }
    assert(batch_views(plan@) =~= command_taps(command@)->0);
    Ok(plan)
}

fn edge_batches(command: &InputCommand, value: i32) -> (r: Result<Vec<KeyBatch>>)
    ensures
        match command_edges(command@, value) {
            Some(p) => r matches Ok(v) && batch_views(v@) == p,
            None => r matches Err(ForgeError::InvalidArgument(_)),
        },
{
    let mut plan: Vec<KeyBatch> = Vec::new();
    match command {
        InputCommand::Noop => {},
        InputCommand::Tap(key) => {
            plan.push(one_key(*key, value));
        },
        InputCommand::Chord(keys) | InputCommand::HoldChord(keys) => {
            plan.push(KeyBatch { keys: copy_keys(keys), value });
        },
        InputCommand::Device(action) => {
            return Err(device_refusal(*action));
        },
    }
    assert(batch_views(plan@) =~= command_edges(command@, value)->0);
    Ok(plan)
}

/// The key batches the virtual device emits for one routed dispatch, in order.
pub fn emit_plan(dispatch: &Dispatch) -> (r: Result<Vec<KeyBatch>>)
    ensures
        match spec_emit_plan(dispatch@) {
            Some(p) => r matches Ok(v) && batch_views(v@) == p,
            None => r matches Err(ForgeError::InvalidArgument(_)),
        },
{
    match dispatch {
        Dispatch::Consume => {
            let plan: Vec<KeyBatch> = Vec::new();
            assert(batch_views(plan@) =~= Seq::<BatchView>::empty());
            Ok(plan)
        },
        Dispatch::Tap(command) => tap_batches(command),
        Dispatch::HoldStart(command) => edge_batches(command, 1),
        Dispatch::HoldEnd(command) => edge_batches(command, 0),
    }
}

/// The dispatches that inject an action once: a tap, or the start of a
/// hold and, after a pause, its end.
pub fn inject_dispatches(action: &Action) -> (r: Result<(Dispatch, Option<Dispatch>)>)
    ensures
        match spec_input_command(action@) {
            Some(c) => r matches Ok((first, second)) && if action is HoldShortcut {
                first@ == DispatchView::HoldStart(c) && (second matches Some(d) && d@ == DispatchView::HoldEnd(c))
            } else {
                first@ == DispatchView::Tap(c) && second is None
            },
            None => r matches Err(ForgeError::InvalidArgument(m)) && m@ == command_refusal(action@),
        },
{
    let command = action.input_command()?;
    if action.is_hold() {
        let release = action.input_command()?;
        Ok((Dispatch::HoldStart(command), Some(Dispatch::HoldEnd(release))))
    } else {
        Ok((Dispatch::Tap(command), None))
    }
}

/// One raw evdev event of a captured device.
#[derive(Clone, Copy, Debug, PartialEq, Eq, Structural)]
pub struct RawEvent {
    pub kind: u16,
    pub code: u16,
    pub value: i32,
}

/// `evdev::EventType::KEY`: the type of key and button events.
#[verifier::external_body]
fn key_event_type() -> (r: u16)
    ensures
        r == 1,
{
    EventType::KEY.0
}

/// `evdev::EventType::SYNCHRONIZATION`: the type of report boundaries.
#[verifier::external_body]
fn sync_event_type() -> (r: u16)
    ensures
        r == 0,
{
    EventType::SYNCHRONIZATION.0
}

/// The end of one input report: a synchronization event with code 0.
pub open spec fn is_report_end(e: RawEvent) -> bool {
    e.kind == 0 && e.code == 0
}

/// What a captured event makes the virtual device do.
#[derive(Clone, Debug, PartialEq, Eq)]
pub enum CaptureAction {
    /// Perform a routed action.
    Inject(Dispatch),
    /// Forward the physical events of a finished report unchanged.
    Forward(Vec<RawEvent>),
}

/// One step of a capture: a key event with a binding becomes its action; a
/// key event without one, and any other event but a report end, waits in
/// `pending`; a report end forwards what waited.
pub fn capture_step(router: &ActionRouter, pending: &mut Vec<RawEvent>, event: RawEvent) -> (r: Result<
    Option<CaptureAction>,
>)
    ensures
        event.kind == 1 && router.bindings().contains_key(event.code) ==> {
            let action = router.bindings()[event.code];
            &&& final(pending)@ == old(pending)@
            &&& match spec_input_command(action@) {
                Some(c) => r matches Ok(Some(CaptureAction::Inject(d))) && d@ == spec_dispatch(
                    action is HoldShortcut,
                    c,
                    event.value,
                ),
                None => r matches Err(ForgeError::InvalidArgument(m)) && m@ == command_refusal(action@),
            }
        },
        (event.kind == 1 && !router.bindings().contains_key(event.code)) || (event.kind != 1
            && !is_report_end(event)) ==> {
            &&& final(pending)@ == old(pending)@.push(event)
            &&& r == Ok::<Option<CaptureAction>, ForgeError>(None)
        },
        is_report_end(event) ==> {
            &&& final(pending)@ == Seq::<RawEvent>::empty()
            &&& r matches Ok(Some(CaptureAction::Forward(events))) && events@ == old(pending)@
        },
{
    if event.kind == key_event_type() {
        match router.route(ButtonEvent { code: event.code, value: event.value })? {
            Some(dispatch) => {
                return Ok(Some(CaptureAction::Inject(dispatch)));
            },
            None => {
                pending.push(event);
                return Ok(None);
            },
        }
    }
    if event.kind == sync_event_type() && event.code == 0 {
        let mut forwarded: Vec<RawEvent> = Vec::new();
        core::mem::swap(&mut forwarded, pending);
        return Ok(Some(CaptureAction::Forward(forwarded)));
    }
    pending.push(event);
    Ok(None)
}

} // verus!
