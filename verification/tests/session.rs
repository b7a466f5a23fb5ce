use std::collections::VecDeque;
use std::time::Duration;

use logi_forge::action::{Action, DeviceAction, InputCommand, InputKey};
use logi_forge::cli::{json_escape, one_path, parse_dpi_value, take_first, take_index, take_torque};
use logi_forge::client::{HidTransport, HidppClient};
use logi_forge::divert::{arm_controls, armed_controls, control_edges, held_controls, restore_diverted_controls};
use logi_forge::input::{capture_step, emit_plan, CaptureAction, KeyBatch, RawEvent};
use logi_forge::model::ReprogControlInfo;
use logi_forge::router::{ActionRouter, ButtonEvent, Dispatch};
use logi_forge::wire::LONG_REPORT_ID;
use logi_forge::{ForgeError, Result};

fn args(items: &[&str]) -> Vec<String> {
    items.iter().map(|item| item.to_string()).collect()
}

#[test]
fn takes_index_torque_and_first_arguments() {
    let mut list = args(&["get", "/dev/hidraw1", "--index", "3"]);
    assert_eq!(take_index(&mut list).unwrap(), 3);
    assert_eq!(list, args(&["get", "/dev/hidraw1"]));
    let mut list = args(&["get"]);
    assert_eq!(take_index(&mut list).unwrap(), 0xff);
    let mut list = args(&["--index", "FF"]);
    assert_eq!(take_index(&mut list).unwrap(), 0xff);
    let mut list = args(&["--index", "0"]);
    assert!(matches!(take_index(&mut list), Err(ForgeError::InvalidArgument(_))));
    let mut list = args(&["x", "--index"]);
    assert!(take_index(&mut list).is_err());
    assert_eq!(list, args(&["x", "--index"]));

    let mut list = args(&["set", "--torque", "55", "ratchet"]);
    assert_eq!(take_torque(&mut list).unwrap(), Some(55));
    assert_eq!(list, args(&["set", "ratchet"]));
    let mut list = args(&["--torque", "300"]);
    assert!(take_torque(&mut list).is_err());

    let mut list = args(&["dpi", "get"]);
    assert_eq!(take_first(&mut list, "need").unwrap(), "dpi");
    assert_eq!(list, args(&["get"]));
    let mut empty: Vec<String> = Vec::new();
    assert!(matches!(take_first(&mut empty, "need"), Err(ForgeError::InvalidArgument(m)) if m == "need"));

    assert_eq!(one_path(&args(&["/dev/hidraw3"])).unwrap(), "/dev/hidraw3");
    assert!(one_path(&args(&["a", "b"])).is_err());
}

#[test]
fn reads_dpi_values_and_refuses_others() {
    assert_eq!(parse_dpi_value("1600").unwrap(), 1600);
    assert_eq!(parse_dpi_value("65535").unwrap(), 65535);
    match parse_dpi_value("65536") {
        Err(ForgeError::InvalidArgument(message)) => assert_eq!(message, "invalid DPI value 65536"),
        other => panic!("unexpected {other:?}"),
    }
    assert!(matches!(parse_dpi_value("fast"), Err(ForgeError::InvalidArgument(_))));
}

#[test]
fn escapes_json_strings() {
    assert_eq!(json_escape("a\"b\\c\nd"), "a\\\"b\\\\c\\nd");
    assert_eq!(json_escape("plain"), "plain");
}

#[test]
fn plans_taps_holds_and_refuses_device_actions() {
    let chord = InputCommand::Chord(vec![InputKey::Ctrl, InputKey::Key('c')]);
    assert_eq!(
        emit_plan(&Dispatch::Tap(chord.clone())).unwrap(),
        vec![
            KeyBatch { keys: vec![InputKey::Ctrl, InputKey::Key('c')], value: 1 },
            KeyBatch { keys: vec![InputKey::Key('c'), InputKey::Ctrl], value: 0 },
        ]
    );
    assert_eq!(
        emit_plan(&Dispatch::Tap(InputCommand::Tap(InputKey::Back))).unwrap(),
        vec![
            KeyBatch { keys: vec![InputKey::Back], value: 1 },
            KeyBatch { keys: vec![InputKey::Back], value: 0 },
        ]
    );
    assert_eq!(
        emit_plan(&Dispatch::HoldEnd(chord)).unwrap(),
        vec![KeyBatch { keys: vec![InputKey::Ctrl, InputKey::Key('c')], value: 0 }]
    );
    assert!(emit_plan(&Dispatch::Consume).unwrap().is_empty());
    assert!(matches!(
        emit_plan(&Dispatch::Tap(InputCommand::Device(DeviceAction::CycleDpiPresets))),
        Err(ForgeError::InvalidArgument(_))
    ));
}

#[test]
fn capture_forwards_unmapped_events_at_report_end() {
    let router = ActionRouter::new(vec![(275, Action::BrowserBack)]);
    let mut pending = Vec::new();
    let motion = RawEvent { kind: 2, code: 0, value: 5 };
    let unmapped = RawEvent { kind: 1, code: 272, value: 1 };
    let mapped = RawEvent { kind: 1, code: 275, value: 1 };
    let sync = RawEvent { kind: 0, code: 0, value: 0 };
    assert_eq!(capture_step(&router, &mut pending, motion).unwrap(), None);
    assert_eq!(capture_step(&router, &mut pending, unmapped).unwrap(), None);
    assert!(matches!(
        capture_step(&router, &mut pending, mapped).unwrap(),
        Some(CaptureAction::Inject(Dispatch::Tap(InputCommand::Tap(InputKey::Back))))
    ));
    assert_eq!(
        capture_step(&router, &mut pending, sync).unwrap(),
        Some(CaptureAction::Forward(vec![motion, unmapped]))
    );
    assert!(pending.is_empty());
}

#[test]
fn computes_held_controls_and_their_edges() {
    let held = held_controls(&[0x0103, 0, 0x00d4, 0x0999], &vec![0x00d4, 0x0103]);
    assert_eq!(held, vec![0x00d4, 0x0103]);
    let edges = control_edges(&vec![0x00d4, 0x00e5], &vec![0x00e5, 0x0103]);
    assert_eq!(
        edges,
        vec![
            ButtonEvent { code: 0x00d4, value: 0 },
            ButtonEvent { code: 0x0103, value: 1 },
        ]
    );
}

#[test]
fn arms_only_divertable_controls_in_ascending_order() {
    let requested = vec![
        (0x0103, Action::Copy),
        (0x00d4, Action::ShowDesktop),
        (0x00e9, Action::Paste),
        (0x0103, Action::Undo),
    ];
    let controls = vec![
        ReprogControlInfo { cid: 0x00d4, task_id: 1, flags: 0x22 },
        ReprogControlInfo { cid: 0x0103, task_id: 2, flags: 0x20 },
        ReprogControlInfo { cid: 0x00e9, task_id: 3, flags: 0x02 },
    ];
    assert_eq!(
        armed_controls(&requested, &controls),
        vec![(0x00d4, Action::ShowDesktop), (0x0103, Action::Undo)]
    );
}

#[derive(Default)]
struct DivertTransport {
    refuse_cid_low: Option<u8>,
    requests: Vec<Vec<u8>>,
    reads: VecDeque<Vec<u8>>,
}

impl HidTransport for DivertTransport {
    fn transact(&mut self, request: &[u8], _timeout: Duration) -> Result<Vec<u8>> {
        self.requests.push(request.to_vec());
        let mut response = vec![0; 20];
        response[0] = LONG_REPORT_ID;
        response[1..4].copy_from_slice(&request[1..4]);
        let function = request[3] >> 4;
        if function == 3 && Some(request[5]) == self.refuse_cid_low {
            response[2] = 0xff;
            response[3] = request[2];
            response[4] = request[3];
            response[5] = 5;
            return Ok(response);
        }
        if function == 2 {
            let diverted = self
                .requests
                .iter()
                .rev()
                .find(|r| r[3] >> 4 == 3 && r[4] == request[4] && r[5] == request[5])
                .map_or(0, |r| r[6] & 1);
            response[4..7].copy_from_slice(&[request[4], request[5], diverted]);
        }
        Ok(response)
    }

    fn read_report(&mut self, _timeout: Duration) -> Result<Vec<u8>> {
        self.reads.pop_front().ok_or(ForgeError::Timeout)
    }
}

#[test]
fn arming_failure_restores_the_controls_already_diverted() {
    let transport = DivertTransport { refuse_cid_low: Some(0xe9), ..Default::default() };
    let mut client = HidppClient::new(transport, 0xff);
    let result = arm_controls(&mut client, 15, &vec![0x00d4, 0x0103, 0x00e9]);
    assert!(matches!(result, Err(ForgeError::Hidpp { code: 5, .. })));
    let transport = client.into_transport();
    let writes: Vec<(u8, u8)> = transport
        .requests
        .iter()
        .filter(|r| r[3] >> 4 == 3)
        .map(|r| (r[5], r[6]))
        .collect();
    assert_eq!(
        writes,
        vec![(0xd4, 0x23), (0x03, 0x23), (0xe9, 0x23), (0xd4, 0x22), (0x03, 0x22)]
    );

    let mut client = HidppClient::new(DivertTransport::default(), 0xff);
    arm_controls(&mut client, 15, &vec![0x00d4]).unwrap();
    restore_diverted_controls(&mut client, 15, &vec![0x00d4]).unwrap();
}

#[test]
fn waiting_for_diverted_controls_times_out_without_a_snapshot() {
    let mut transport = DivertTransport::default();
    transport.reads.push_back(vec![0x11, 0xff, 9, 0, 0, 0xd4, 0, 0, 0, 0, 0, 0]);
    let mut client = HidppClient::new(transport, 0xff);
    assert!(matches!(
        client.next_diverted_controls(15, Duration::from_millis(5)),
        Err(ForgeError::Timeout)
    ));
}
