use core::time::Duration;

use vstd::prelude::*;

use crate::error::{ForgeError, Result};
use crate::text::{bool_text, decimal, decimal_seq, hex4, message};
use crate::model::{
    BatteryInfo, BatteryStatus, DpiInfo, FeatureMap, FnLockFeature, FnLockInfo, KeyboardLightingBackend,
    KeyboardLightingInfo, ReprogControlInfo, ReprogControlsInfo, RgbColor, SmartShiftFeature,
    SmartShiftInfo, WheelMode, spec_wire_value,
};
use crate::wire::{
    be16, dpi_entries, from_be, parse_dpi_list, parse_fn_lock, spec_fn_lock, strictly_increasing,
    DecodeFailure, LONG_REPORT_ID, SHORT_REPORT_ID, decode_response, long_request, short_request,
    spec_battery_status, spec_decode, unified_battery_status, legacy_battery_status,
    collect_present_zones, decode_diverted_controls, fixed_color_args, per_key_reports,
    present_zones, spec_diverted_controls, spec_fixed_color_args, spec_per_key_reports,
};

verus! {

pub const ROOT_FEATURE_INDEX: u8 = 0x00;
pub const UNIFIED_BATTERY: u16 = 0x1004;
pub const LEGACY_BATTERY: u16 = 0x1000;
pub const ADJUSTABLE_DPI: u16 = 0x2201;
pub const SMARTSHIFT_ENHANCED: u16 = 0x2111;
pub const SMARTSHIFT_LEGACY: u16 = 0x2110;
pub const FN_INVERSION_MULTI_HOST: u16 = 0x40a3;
pub const FN_INVERSION_SINGLE_HOST: u16 = 0x40a2;
pub const CURRENT_HOST: u8 = 0xff;
pub const COLOR_LED_EFFECTS: u16 = 0x8070;
pub const FIXED_COLOR_EFFECT: u8 = 1;
pub const MAX_EFFECT_ZONES: u8 = 4;
pub const PER_KEY_LIGHTING_V2: u16 = 0x8081;
pub const PER_KEY_LIGHTING: u16 = 0x8080;
pub const MAX_SINGLE_COLOR_ZONES: usize = 13;
pub const REPROG_CONTROLS: u16 = 0x1b04;

/// A byte channel to one HID++ device.
pub trait HidTransport {
    /// Sends one HID++ request and waits for its correlated response.
    fn transact(&mut self, request: &[u8], timeout: Duration) -> Result<Vec<u8>>;

    /// Writes a report that intentionally has no correlated response. A
    /// transport without unacknowledged writes refuses every report.
    fn write_report(&mut self, report: &[u8]) -> (r: Result<()>)
        default_ensures
            r matches Err(ForgeError::InvalidArgument(m))
                && m@ == "transport does not support unacknowledged reports"@,
    {
        Err(ForgeError::InvalidArgument("transport does not support unacknowledged reports".to_owned()))
    }

    /// Reads one unsolicited report, waiting up to `timeout`. A transport
    /// without unsolicited reports refuses every read.
    fn read_report(&mut self, timeout: Duration) -> (r: Result<Vec<u8>>)
        default_ensures
            r matches Err(ForgeError::InvalidArgument(m))
                && m@ == "transport does not support unsolicited reports"@,
    {
        Err(ForgeError::InvalidArgument("transport does not support unsolicited reports".to_owned()))
    }

    /// Lets the device settle between consecutive paced writes.
    fn pace(&mut self, pause: Duration) {
    }
}

/// One exchange with the transport, as the client performed it.
pub ghost enum WireEvent {
    /// A request sent with `transact` and what came back.
    Exchange { request: Seq<u8>, response: core::result::Result<Seq<u8>, ForgeError> },
    /// A report written with `write_report` and its outcome.
    Write { report: Seq<u8>, outcome: core::result::Result<(), ForgeError> },
    /// A report read with `read_report`.
    Read { received: core::result::Result<Seq<u8>, ForgeError> },
    /// A pause between two paced writes.
    Pause,
}

/// The error an operation reports: exactly a given error, any error of a
/// kind, or an invalid response with a given text.
pub ghost enum ErrorSpec {
    Exactly(ForgeError),
    InvalidResponse,
    InvalidArgument,
    InvalidResponseText(Seq<char>),
}

pub open spec fn error_fits(e: ForgeError, s: ErrorSpec) -> bool {
    match s {
        ErrorSpec::Exactly(x) => e == x,
        ErrorSpec::InvalidResponse => e is InvalidResponse,
        ErrorSpec::InvalidArgument => e is InvalidArgument,
        ErrorSpec::InvalidResponseText(text) => e matches ForgeError::InvalidResponse(m) && m@ == text,
    }
}

/// `true` or `false`.
pub open spec fn bool_seq(b: bool) -> Seq<char> {
    if b {
        "true"@
    } else {
        "false"@
    }
}

/// The refusal of an Fn-lock write that the device reports otherwise.
pub open spec fn fn_lock_mismatch(requested: bool, reported: bool) -> Seq<char> {
    "Fn-lock write verification failed: requested "@ + bool_seq(requested) + ", device reports "@
        + bool_seq(reported)
}

/// The outcome of a protocol step that starts at some position of the wire
/// log: its result, the position after its events, and the next software id.
pub ghost struct Step<R> {
    pub result: core::result::Result<R, ErrorSpec>,
    pub next: int,
    pub sw: u8,
}

/// A result agrees with a specified result.
pub open spec fn result_fits<R>(r: Result<R>, s: core::result::Result<R, ErrorSpec>) -> bool {
    match s {
        Ok(v) => r == Ok::<R, ForgeError>(v),
        Err(es) => r matches Err(e) && error_fits(e, es),
    }
}

/// `w2` continues the log `w1`.
pub open spec fn extends(w2: Seq<WireEvent>, w1: Seq<WireEvent>) -> bool {
    &&& w1.len() <= w2.len()
    &&& forall|i: int| #![trigger w2[i]] #![trigger w1[i]] 0 <= i < w1.len() ==> w2[i] == w1[i]
}

/// The software id after `sw`: ids rotate through 1..=15.
pub open spec fn next_sw(sw: u8) -> u8 {
    if sw >= 15 {
        1
    } else {
        (sw + 1) as u8
    }
}

/// The software id `n` requests after one that carried `sw`.
pub open spec fn sw_after(sw: u8, n: nat) -> u8
    decreases n,
{
    if n == 0 {
        sw
    } else {
        next_sw(sw_after(sw, (n - 1) as nat))
    }
}

proof fn lemma_sw_closed(sw: u8, n: nat)
    requires
        1 <= sw <= 15,
    ensures
        sw_after(sw, n) == ((sw - 1 + n) % 15) + 1,
    decreases n,
{
    if n > 0 {
        lemma_sw_closed(sw, (n - 1) as nat);
        let x = sw - 1 + n - 1;
        assert(x % 15 == 14 ==> (x + 1) % 15 == 0);
        assert(x % 15 < 14 ==> (x + 1) % 15 == x % 15 + 1);
    }
}

/// Software ids rotate: starting from an id in 1..=15, the `n`-th request
/// after it carries id `(sw - 1 + n) mod 15 + 1`, so any fifteen consecutive
/// requests carry fifteen different ids and the sixteenth repeats the first.
pub proof fn lemma_software_ids_rotate(sw: u8, n: nat)
    requires
        1 <= sw <= 15,
    ensures
        sw_after(sw, n) == ((sw - 1 + n) % 15) + 1,
        1 <= sw_after(sw, n) <= 15,
        sw_after(sw, n + 15) == sw_after(sw, n),
        forall|j: nat| n < j < n + 15 ==> sw_after(sw, n) != #[trigger] sw_after(sw, j),
{
    lemma_sw_closed(sw, n);
    lemma_sw_closed(sw, n + 15);
    assert((sw - 1 + n + 15) % 15 == (sw - 1 + n) % 15);
    assert forall|j: nat| n < j < n + 15 implies sw_after(sw, n) != #[trigger] sw_after(sw, j) by {
        lemma_sw_closed(sw, j);
        let x: int = sw - 1 + n;
        let y: int = sw - 1 + j;
        assert(x % 15 != y % 15) by (nonlinear_arith)
            requires
                0 <= x < y < x + 15,
        {
        }
    }
}

/// The request of a call: short for three arguments, long for sixteen.
pub open spec fn call_request(
    device_index: u8,
    feature_index: u8,
    function: u8,
    sw: u8,
    args: Seq<u8>,
) -> Seq<u8> {
    let fs = (function * 16 + sw) as u8;
    if args.len() == 3 {
        short_request(device_index, feature_index, fs, args)
    } else {
        long_request(device_index, feature_index, fs, args)
    }
}

/// The payload a call yields for a response.
pub open spec fn call_outcome(
    response: core::result::Result<Seq<u8>, ForgeError>,
    device_index: u8,
    feature_index: u8,
    fs: u8,
) -> core::result::Result<Seq<u8>, ErrorSpec> {
    match response {
        Err(e) => Err(ErrorSpec::Exactly(e)),
        Ok(bytes) => match spec_decode(bytes, device_index, feature_index, fs) {
            Ok(payload) => Ok(payload),
            Err(DecodeFailure::Hidpp { code, feature_index, function }) => Err(
                ErrorSpec::Exactly(ForgeError::Hidpp { code, feature_index, function }),
            ),
            Err(DecodeFailure::Invalid) => Err(ErrorSpec::InvalidResponse),
        },
    }
}

/// One call of `function` on feature `feature_index` with software id `sw`,
/// found at position `pos` of the log.
pub open spec fn spec_call(
    w: Seq<WireEvent>,
    pos: int,
    device_index: u8,
    feature_index: u8,
    function: u8,
    sw: u8,
    args: Seq<u8>,
) -> Option<Step<Seq<u8>>> {
    if 0 <= pos < w.len() && w[pos] is Exchange && w[pos]->request == call_request(
        device_index,
        feature_index,
        function,
        sw,
        args,
    ) {
        Some(
            Step {
                result: call_outcome(
                    w[pos]->response,
                    device_index,
                    feature_index,
                    (function * 16 + sw) as u8,
                ),
                next: pos + 1,
                sw: next_sw(sw),
            },
        )
    } else {
        None
    }
}

/// A step that fails with `e` without further events.
pub open spec fn failed<A, B>(s: Step<A>, e: ErrorSpec) -> Option<Step<B>> {
    Some(Step { result: Err(e), next: s.next, sw: s.sw })
}

/// A step that ends with `v`.
pub open spec fn done<A, B>(s: Step<A>, v: B) -> Option<Step<B>> {
    Some(Step { result: Ok(v), next: s.next, sw: s.sw })
}

/// `ping`: root function 1 with a nonce that the device echoes.
pub open spec fn spec_ping(w: Seq<WireEvent>, pos: int, d: u8, sw: u8) -> Option<Step<(u8, u8)>> {
    match spec_call(w, pos, d, ROOT_FEATURE_INDEX, 1, sw, seq![0u8, 0u8, 0xa5u8]) {
        None => None,
        Some(s) => match s.result {
            Err(e) => failed(s, e),
            Ok(p) => if p[2] != 0xa5 {
                failed(s, ErrorSpec::InvalidResponse)
            } else {
                done(s, (p[0], p[1]))
            },
        },
    }
}

/// The high byte of a feature id.
pub open spec fn high(v: u16) -> u8 {
    (v / 256) as u8
}

/// The low byte of a feature id.
pub open spec fn low(v: u16) -> u8 {
    (v % 256) as u8
}

/// `resolve_feature`: root function 0 yields the runtime index of a feature, 0 when absent.
pub open spec fn spec_resolve(w: Seq<WireEvent>, pos: int, d: u8, sw: u8, feature: u16) -> Option<
    Step<Option<u8>>,
> {
    match spec_call(w, pos, d, ROOT_FEATURE_INDEX, 0, sw, seq![high(feature), low(feature), 0u8]) {
        None => None,
        Some(s) => match s.result {
            Err(e) => failed(s, e),
            Ok(p) => done(
                s,
                if p[0] != 0 {
                    Some(p[0])
                } else {
                    None
                },
            ),
        },
    }
}


/// `feature_map`: the indexes of the five features the agent uses, in a fixed order.
pub open spec fn spec_feature_map(w: Seq<WireEvent>, pos: int, d: u8, sw: u8) -> Option<Step<FeatureMap>> {
    match spec_resolve(w, pos, d, sw, UNIFIED_BATTERY) {
        None => None,
        Some(s1) => match s1.result {
            Err(e) => failed(s1, e),
            Ok(a) => match spec_resolve(w, s1.next, d, s1.sw, LEGACY_BATTERY) {
                None => None,
                Some(s2) => match s2.result {
                    Err(e) => failed(s2, e),
                    Ok(b) => match spec_resolve(w, s2.next, d, s2.sw, ADJUSTABLE_DPI) {
                        None => None,
                        Some(s3) => match s3.result {
                            Err(e) => failed(s3, e),
                            Ok(c) => match spec_resolve(w, s3.next, d, s3.sw, SMARTSHIFT_ENHANCED) {
                                None => None,
                                Some(s4) => match s4.result {
                                    Err(e) => failed(s4, e),
                                    Ok(e4) => match spec_resolve(
                                        w,
                                        s4.next,
                                        d,
                                        s4.sw,
                                        SMARTSHIFT_LEGACY,
                                    ) {
                                        None => None,
                                        Some(s5) => match s5.result {
                                            Err(e) => failed(s5, e),
                                            Ok(f) => done(
                                                s5,
                                                FeatureMap {
                                                    unified_battery: a,
                                                    legacy_battery: b,
                                                    adjustable_dpi: c,
                                                    smartshift_enhanced: e4,
                                                    smartshift_legacy: f,
                                                },
                                            ),
                                        },
                                    },
                                },
                            },
                        },
                    },
                },
            },
        },
    }
}

/// Reading one battery feature at runtime index `index` with `function`.
pub open spec fn spec_battery_read(
    w: Seq<WireEvent>,
    pos: int,
    d: u8,
    sw: u8,
    index: u8,
    function: u8,
    feature: u16,
) -> Option<Step<BatteryInfo>> {
    match spec_call(w, pos, d, index, function, sw, seq![0u8, 0u8, 0u8]) {
        None => None,
        Some(s) => match s.result {
            Err(e) => failed(s, e),
            Ok(p) => done(
                s,
                BatteryInfo {
                    percentage: p[0],
                    status: spec_battery_status(p[2]),
                    source_feature: feature,
                },
            ),
        },
    }
}

/// `battery`: the unified battery feature when present, else the legacy one.
pub open spec fn spec_battery(w: Seq<WireEvent>, pos: int, d: u8, sw: u8) -> Option<Step<BatteryInfo>> {
    match spec_resolve(w, pos, d, sw, UNIFIED_BATTERY) {
        None => None,
        Some(s1) => match s1.result {
            Err(e) => failed(s1, e),
            Ok(Some(index)) => spec_battery_read(w, s1.next, d, s1.sw, index, 1, UNIFIED_BATTERY),
            Ok(None) => match spec_resolve(w, s1.next, d, s1.sw, LEGACY_BATTERY) {
                None => None,
                Some(s2) => match s2.result {
                    Err(e) => failed(s2, e),
                    Ok(Some(index)) => spec_battery_read(w, s2.next, d, s2.sw, index, 0, LEGACY_BATTERY),
                    Ok(None) => failed(s2, ErrorSpec::Exactly(ForgeError::FeatureUnsupported(UNIFIED_BATTERY))),
                },
            },
        },
    }
}


/// The three zero argument bytes of a request that takes none.
pub open spec fn no_args() -> Seq<u8> {
    seq![0u8, 0u8, 0u8]
}

/// The battery state a status byte documents.
pub open spec fn documented_battery_state(v: u8, s: BatteryStatus) -> bool {
    if v == 0 {
        s == BatteryStatus::Discharging
    } else if v == 1 {
        s == BatteryStatus::Charging
    } else if v == 2 {
        s == BatteryStatus::AlmostFull
    } else if v == 3 {
        s == BatteryStatus::Full
    } else if v == 4 {
        s == BatteryStatus::SlowCharging
    } else {
        s == BatteryStatus::Error(v)
    }
}

/// A battery reading is the answer to a status request: the level is byte 0
/// of its payload and the status the state byte 2 documents; the unified
/// feature is read with function 1 and the legacy one with function 0.
pub proof fn lemma_battery_reading(w: Seq<WireEvent>, pos: int, d: u8, sw: u8)
    requires
        spec_battery(w, pos, d, sw) matches Some(s) && s.result is Ok,
    ensures
        ({
            let info = spec_battery(w, pos, d, sw)->0.result->Ok_0;
            exists|q: int, t: u8, index: u8, function: u8|
                #![trigger spec_call(w, q, d, index, function, t, no_args())]
                spec_call(w, q, d, index, function, t, no_args()) matches Some(c) && c.result matches Ok(p)
                    && info.percentage == p[0]
                    && documented_battery_state(p[2], info.status)
                    && ((info.source_feature == UNIFIED_BATTERY && function == 1)
                        || (info.source_feature == LEGACY_BATTERY && function == 0))
        }),
{
    crate::wire::lemma_battery_states(0, 0);
    let s1 = spec_resolve(w, pos, d, sw, UNIFIED_BATTERY)->0;
    match s1.result {
        Ok(Some(index)) => {
            let c = spec_call(w, s1.next, d, index, 1, s1.sw, no_args());
            let p = c->0.result->Ok_0;
            crate::wire::lemma_battery_states(p[2], 0);
            assert(c matches Some(cc) && cc.result matches Ok(pp) && documented_battery_state(pp[2], spec_battery_status(pp[2])));
        },
        _ => {
            let s2 = spec_resolve(w, s1.next, d, s1.sw, LEGACY_BATTERY)->0;
            let index = s2.result->Ok_0->0;
            let c = spec_call(w, s2.next, d, index, 0, s2.sw, no_args());
            let p = c->0.result->Ok_0;
            crate::wire::lemma_battery_states(p[2], 0);
            assert(c matches Some(cc) && cc.result matches Ok(pp) && documented_battery_state(pp[2], spec_battery_status(pp[2])));
        },
    }
}

/// The value of a DPI read: the current DPI, the supported values as the
/// payload lists them (with ranges expanded), and the feature read.
pub ghost struct DpiSpec {
    pub current: u16,
    pub listed: Seq<u16>,
    pub source_feature: u16,
}

/// A DPI result agrees with a specified DPI read: the supported values are
/// the listed ones, sorted ascending without repeats.
pub open spec fn dpi_fits(r: Result<DpiInfo>, s: core::result::Result<DpiSpec, ErrorSpec>) -> bool {
    match s {
        Ok(v) => r matches Ok(info) && info.current == v.current && info.source_feature
            == v.source_feature && strictly_increasing(info.supported@) && info.supported@.to_set()
            == v.listed.to_set(),
        Err(es) => r matches Err(e) && error_fits(e, es),
    }
}

/// `dpi`: the sensor count (which must not be 0), the supported-DPI list and
/// the current DPI of sensor 0, read through `0x2201`.
pub open spec fn spec_dpi(w: Seq<WireEvent>, pos: int, d: u8, sw: u8) -> Option<Step<DpiSpec>> {
    match spec_resolve(w, pos, d, sw, ADJUSTABLE_DPI) {
        None => None,
        Some(s1) => match s1.result {
            Err(e) => failed(s1, e),
            Ok(None) => failed(s1, ErrorSpec::Exactly(ForgeError::FeatureUnsupported(ADJUSTABLE_DPI))),
            Ok(Some(index)) => match spec_call(w, s1.next, d, index, 0, s1.sw, seq![0u8, 0u8, 0u8]) {
                None => None,
                Some(s2) => match s2.result {
                    Err(e) => failed(s2, e),
                    Ok(p2) => if p2[0] == 0 {
                        failed(s2, ErrorSpec::InvalidResponse)
                    } else {
                        match spec_call(w, s2.next, d, index, 1, s2.sw, seq![0u8, 0u8, 0u8]) {
                            None => None,
                            Some(s3) => match s3.result {
                                Err(e) => failed(s3, e),
                                Ok(p3) => match dpi_entries(p3.skip(1), 0, seq![]) {
                                    Err(_) => failed(s3, ErrorSpec::InvalidResponse),
                                    Ok(listed) => if listed.len() == 0 {
                                        failed(s3, ErrorSpec::InvalidResponse)
                                    } else {
                                        match spec_call(w, s3.next, d, index, 2, s3.sw, seq![0u8, 0u8, 0u8]) {
                                            None => None,
                                            Some(s4) => match s4.result {
                                                Err(e) => failed(s4, e),
                                                Ok(p4) => done(
                                                    s4,
                                                    DpiSpec {
                                                        current: be16(p4[1], p4[2]),
                                                        listed,
                                                        source_feature: ADJUSTABLE_DPI,
                                                    },
                                                ),
                                            },
                                        }
                                    },
                                },
                            },
                        }
                    },
                },
            },
        },
    }
}

/// The write half of `set_dpi`: the write through function 3 and a
/// read-back that must report the written DPI.
pub open spec fn spec_dpi_write(w: Seq<WireEvent>, pos: int, d: u8, sw: u8, dpi: u16) -> Option<Step<DpiSpec>> {
    match spec_resolve(w, pos, d, sw, ADJUSTABLE_DPI) {
        None => None,
        Some(s1) => match s1.result {
            Err(e) => failed(s1, e),
            Ok(None) => failed(s1, ErrorSpec::Exactly(ForgeError::FeatureUnsupported(ADJUSTABLE_DPI))),
            Ok(Some(index)) => match spec_call(w, s1.next, d, index, 3, s1.sw, seq![0u8, high(dpi), low(dpi)]) {
                None => None,
                Some(s2) => match s2.result {
                    Err(e) => failed(s2, e),
                    Ok(_) => match spec_dpi(w, s2.next, d, s2.sw) {
                        None => None,
                        Some(s3) => match s3.result {
                            Err(e) => failed(s3, e),
                            Ok(after) => if after.current != dpi {
                                failed(
                                    s3,
                                    ErrorSpec::Exactly(ForgeError::VerificationFailed { requested: dpi, actual: after.current }),
                                )
                            } else {
                                done(s3, after)
                            },
                        },
                    },
                },
            },
        },
    }
}

/// `set_dpi`: a read, a refusal of a DPI the device does not list, then the
/// write and its read-back.
pub open spec fn spec_set_dpi(w: Seq<WireEvent>, pos: int, d: u8, sw: u8, dpi: u16) -> Option<Step<DpiSpec>> {
    match spec_dpi(w, pos, d, sw) {
        None => None,
        Some(s1) => match s1.result {
            Err(e) => failed(s1, e),
            Ok(before) => if !before.listed.contains(dpi) {
                failed(s1, ErrorSpec::InvalidArgument)
            } else {
                spec_dpi_write(w, s1.next, d, s1.sw, dpi)
            },
        },
    }
}

/// A DPI the device does not list is refused right after the read: the
/// step ends where the read ended, so no write request is ever sent.
pub proof fn lemma_unlisted_dpi_is_never_written(w: Seq<WireEvent>, pos: int, d: u8, sw: u8, dpi: u16)
    requires
        spec_dpi(w, pos, d, sw) matches Some(s) && s.result matches Ok(before) && !before.listed.contains(dpi),
    ensures
        spec_set_dpi(w, pos, d, sw, dpi) == failed::<DpiSpec, DpiSpec>(spec_dpi(w, pos, d, sw)->0, ErrorSpec::InvalidArgument),
{
}

/// A DPI write succeeds only when the value read back is the value written.
pub proof fn lemma_dpi_write_is_read_back(w: Seq<WireEvent>, pos: int, d: u8, sw: u8, dpi: u16)
    requires
        spec_set_dpi(w, pos, d, sw, dpi) matches Some(s) && s.result is Ok,
    ensures
        spec_set_dpi(w, pos, d, sw, dpi)->0.result matches Ok(after) && after.current == dpi,
        spec_dpi(w, pos, d, sw)->0.result matches Ok(before) && before.listed.contains(dpi),
{
}

/// A SmartShift wire mode.
pub open spec fn spec_wheel(v: u8) -> Option<WheelMode> {
    if v == 1 {
        Some(WheelMode::FreeSpin)
    } else if v == 2 {
        Some(WheelMode::Ratchet)
    } else {
        None
    }
}

/// Reading SmartShift state at runtime index `index`.
pub open spec fn spec_smartshift_read(w: Seq<WireEvent>, pos: int, d: u8, sw: u8, index: u8, enhanced: bool) -> Option<Step<SmartShiftInfo>> {
    match spec_call(w, pos, d, index, if enhanced { 1u8 } else { 0u8 }, sw, seq![0u8, 0u8, 0u8]) {
        None => None,
        Some(s) => match s.result {
            Err(e) => failed(s, e),
            Ok(p) => match spec_wheel(p[0]) {
                None => failed(s, ErrorSpec::InvalidResponse),
                Some(mode) => done(s, SmartShiftInfo {
                    mode,
                    auto_disengage: p[1],
                    torque: if enhanced { Some(p[2]) } else { None },
                    feature: if enhanced { SmartShiftFeature::Enhanced } else { SmartShiftFeature::Legacy },
                }),
            },
        },
    }
}

/// `smartshift`: the enhanced feature when present, else the legacy one.
pub open spec fn spec_smartshift(w: Seq<WireEvent>, pos: int, d: u8, sw: u8) -> Option<Step<SmartShiftInfo>> {
    match spec_resolve(w, pos, d, sw, SMARTSHIFT_ENHANCED) {
        None => None,
        Some(s1) => match s1.result {
            Err(e) => failed(s1, e),
            Ok(Some(index)) => spec_smartshift_read(w, s1.next, d, s1.sw, index, true),
            Ok(None) => match spec_resolve(w, s1.next, d, s1.sw, SMARTSHIFT_LEGACY) {
                None => None,
                Some(s2) => match s2.result {
                    Err(e) => failed(s2, e),
                    Ok(Some(index)) => spec_smartshift_read(w, s2.next, d, s2.sw, index, false),
                    Ok(None) => failed(s2, ErrorSpec::Exactly(ForgeError::FeatureUnsupported(SMARTSHIFT_ENHANCED))),
                },
            },
        },
    }
}

/// After a SmartShift write, the state read back.
pub open spec fn spec_after_write(w: Seq<WireEvent>, s: Step<Seq<u8>>, d: u8) -> Option<Step<SmartShiftInfo>> {
    match s.result {
        Err(e) => failed(s, e),
        Ok(_) => spec_smartshift(w, s.next, d, s.sw),
    }
}

/// `set_smartshift`: a torque outside 1..=100 is refused before any
/// exchange; the enhanced feature takes mode and torque, the legacy one only
/// a mode; the state is then read back.
pub open spec fn spec_set_smartshift(w: Seq<WireEvent>, pos: int, d: u8, sw: u8, mode: WheelMode, torque: Option<u8>) -> Option<Step<SmartShiftInfo>> {
    if torque matches Some(t) && (t == 0 || t > 100) {
        Some(Step { result: Err(ErrorSpec::InvalidArgument), next: pos, sw })
    } else {
        match spec_resolve(w, pos, d, sw, SMARTSHIFT_ENHANCED) {
            None => None,
            Some(s1) => match s1.result {
                Err(e) => failed(s1, e),
                Ok(Some(index)) => match spec_call(w, s1.next, d, index, 2, s1.sw, seq![spec_wire_value(mode), 0u8, if torque is Some { torque->0 } else { 0u8 }]) {
                    None => None,
                    Some(s2) => spec_after_write(w, s2, d),
                },
                Ok(None) => if torque is Some {
                    failed(s1, ErrorSpec::Exactly(ForgeError::FeatureUnsupported(SMARTSHIFT_ENHANCED)))
                } else {
                    match spec_resolve(w, s1.next, d, s1.sw, SMARTSHIFT_LEGACY) {
                        None => None,
                        Some(s2) => match s2.result {
                            Err(e) => failed(s2, e),
                            Ok(Some(index)) => match spec_call(w, s2.next, d, index, 1, s2.sw, seq![spec_wire_value(mode), 0u8, 0u8]) {
                                None => None,
                                Some(s3) => spec_after_write(w, s3, d),
                            },
                            Ok(None) => failed(s2, ErrorSpec::Exactly(ForgeError::FeatureUnsupported(SMARTSHIFT_ENHANCED))),
                        },
                    }
                },
            },
        }
    }
}

/// Reading Fn-lock state at runtime index `index`.
pub open spec fn spec_fn_lock_read(w: Seq<WireEvent>, pos: int, d: u8, sw: u8, index: u8, feature: FnLockFeature) -> Option<Step<FnLockInfo>> {
    let args = if feature == FnLockFeature::MultiHost { seq![CURRENT_HOST, 0u8, 0u8] } else { seq![0u8, 0u8, 0u8] };
    match spec_call(w, pos, d, index, 0, sw, args) {
        None => None,
        Some(s) => match s.result {
            Err(e) => failed(s, e),
            Ok(p) => match spec_fn_lock(p, feature) {
                None => failed(s, ErrorSpec::InvalidResponse),
                Some(info) => done(s, info),
            },
        },
    }
}

/// `fn_lock`: the per-host feature (for the current host) when present, else the single-host one.
pub open spec fn spec_fn_lock_state(w: Seq<WireEvent>, pos: int, d: u8, sw: u8) -> Option<Step<FnLockInfo>> {
    match spec_resolve(w, pos, d, sw, FN_INVERSION_MULTI_HOST) {
        None => None,
        Some(s1) => match s1.result {
            Err(e) => failed(s1, e),
            Ok(Some(index)) => spec_fn_lock_read(w, s1.next, d, s1.sw, index, FnLockFeature::MultiHost),
            Ok(None) => match spec_resolve(w, s1.next, d, s1.sw, FN_INVERSION_SINGLE_HOST) {
                None => None,
                Some(s2) => match s2.result {
                    Err(e) => failed(s2, e),
                    Ok(Some(index)) => spec_fn_lock_read(w, s2.next, d, s2.sw, index, FnLockFeature::SingleHost),
                    Ok(None) => failed(s2, ErrorSpec::Exactly(ForgeError::FeatureUnsupported(FN_INVERSION_MULTI_HOST))),
                },
            },
        },
    }
}

/// A Fn-lock write through function 1 and the read-back of the state.
pub open spec fn spec_fn_lock_write(w: Seq<WireEvent>, pos: int, d: u8, sw: u8, index: u8, feature: FnLockFeature, enabled: bool) -> Option<Step<FnLockInfo>> {
    let requested: u8 = if enabled { 1 } else { 0 };
    let args = if feature == FnLockFeature::MultiHost { seq![CURRENT_HOST, requested, 0u8] } else { seq![requested, 0u8, 0u8] };
    match spec_call(w, pos, d, index, 1, sw, args) {
        None => None,
        Some(s) => match s.result {
            Err(e) => failed(s, e),
            Ok(_) => spec_fn_lock_read(w, s.next, d, s.sw, index, feature),
        },
    }
}

/// The written Fn-lock state must be the state the device reports.
pub open spec fn verified_fn_lock(s: Option<Step<FnLockInfo>>, enabled: bool) -> Option<Step<FnLockInfo>> {
    match s {
        None => None,
        Some(st) => match st.result {
            Err(e) => failed(st, e),
            Ok(info) => if info.enabled != enabled {
                failed(st, ErrorSpec::InvalidResponseText(fn_lock_mismatch(enabled, info.enabled)))
            } else {
                done(st, info)
            },
        },
    }
}

/// `set_fn_lock`: the write and read-back on the per-host feature when
/// present, else on the single-host one, verified against the request.
pub open spec fn spec_set_fn_lock(w: Seq<WireEvent>, pos: int, d: u8, sw: u8, enabled: bool) -> Option<Step<FnLockInfo>> {
    match spec_resolve(w, pos, d, sw, FN_INVERSION_MULTI_HOST) {
        None => None,
        Some(s1) => match s1.result {
            Err(e) => failed(s1, e),
            Ok(Some(index)) => verified_fn_lock(spec_fn_lock_write(w, s1.next, d, s1.sw, index, FnLockFeature::MultiHost, enabled), enabled),
            Ok(None) => match spec_resolve(w, s1.next, d, s1.sw, FN_INVERSION_SINGLE_HOST) {
                None => None,
                Some(s2) => match s2.result {
                    Err(e) => failed(s2, e),
                    Ok(Some(index)) => verified_fn_lock(spec_fn_lock_write(w, s2.next, d, s2.sw, index, FnLockFeature::SingleHost, enabled), enabled),
                    Ok(None) => failed(s2, ErrorSpec::Exactly(ForgeError::FeatureUnsupported(FN_INVERSION_MULTI_HOST))),
                },
            },
        },
    }
}

/// `n` zero bytes.
pub open spec fn zeros(n: nat) -> Seq<u8> {
    Seq::new(n, |i: int| 0u8)
}

/// The zones a `0x8070` fixed-color write covers: the reported zone count,
/// at most four, and four when the device reports none.
pub open spec fn effect_zone_count(reported: u8) -> u8 {
    if reported == 0 || reported > MAX_EFFECT_ZONES {
        MAX_EFFECT_ZONES
    } else {
        reported
    }
}

/// Fixed-color writes to zones `zone..n` through function 3, with a pause
/// between two consecutive writes.
pub open spec fn spec_effect_writes(
    w: Seq<WireEvent>,
    pos: int,
    d: u8,
    sw: u8,
    index: u8,
    color: RgbColor,
    zone: int,
    n: int,
) -> Option<Step<()>>
    decreases n - zone,
{
    if zone >= n {
        Some(Step { result: Ok(()), next: pos, sw })
    } else {
        match spec_call(w, pos, d, index, 3, sw, spec_fixed_color_args(zone as u8, color)) {
            None => None,
            Some(s) => match s.result {
                Err(e) => failed(s, e),
                Ok(_) => if zone + 1 < n {
                    if s.next < w.len() && w[s.next] is Pause {
                        spec_effect_writes(w, s.next + 1, d, s.sw, index, color, zone + 1, n)
                    } else {
                        None
                    }
                } else {
                    done(s, ())
                },
            },
        }
    }
}

/// `0x8070`: the zone count from function 0, then a fixed-color write per zone.
pub open spec fn spec_effects(w: Seq<WireEvent>, pos: int, d: u8, sw: u8, index: u8, color: RgbColor) -> Option<
    Step<KeyboardLightingInfo>,
> {
    match spec_call(w, pos, d, index, 0, sw, seq![0u8, 0u8, 0u8]) {
        None => None,
        Some(s1) => match s1.result {
            Err(e) => failed(s1, e),
            Ok(p) => {
                let n = effect_zone_count(p[0]);
                match spec_effect_writes(w, s1.next, d, s1.sw, index, color, 0, n as int) {
                    None => None,
                    Some(s2) => match s2.result {
                        Err(e) => failed(s2, e),
                        Ok(_) => done(
                            s2,
                            KeyboardLightingInfo {
                                backend: KeyboardLightingBackend::Effects,
                                zones_written: n as u16,
                            },
                        ),
                    },
                }
            },
        },
    }
}

/// The zones of the three `0x8081` presence pages (bases 0, 112 and 224), in order.
pub open spec fn page_zones(p0: Seq<u8>, p1: Seq<u8>, p2: Seq<u8>) -> Seq<u8> {
    present_zones(0, p0.skip(2), 112) + present_zones(112, p1.skip(2), 112) + present_zones(
        224,
        p2.skip(2),
        112,
    )
}

proof fn lemma_present_zones_len(base: int, bits: Seq<u8>, n: int)
    ensures
        present_zones(base, bits, n).len() <= if n < 0 { 0 } else { n },
    decreases n,
{
    if n > 0 {
        lemma_present_zones_len(base, bits, n - 1);
    }
}

proof fn lemma_page_zones_len(p0: Seq<u8>, p1: Seq<u8>, p2: Seq<u8>)
    ensures
        page_zones(p0, p1, p2).len() <= 336,
{
    lemma_present_zones_len(0, p0.skip(2), 112);
    lemma_present_zones_len(112, p1.skip(2), 112);
    lemma_present_zones_len(224, p2.skip(2), 112);
}

/// Reading the three presence pages through function 0.
pub open spec fn spec_presence(w: Seq<WireEvent>, pos: int, d: u8, sw: u8, index: u8) -> Option<Step<Seq<u8>>> {
    match spec_call(w, pos, d, index, 0, sw, seq![0u8, 0u8, 0u8]) {
        None => None,
        Some(s1) => match s1.result {
            Err(e) => failed(s1, e),
            Ok(p0) => match spec_call(w, s1.next, d, index, 0, s1.sw, seq![0u8, 1u8, 0u8]) {
                None => None,
                Some(s2) => match s2.result {
                    Err(e) => failed(s2, e),
                    Ok(p1) => match spec_call(w, s2.next, d, index, 0, s2.sw, seq![0u8, 2u8, 0u8]) {
                        None => None,
                        Some(s3) => match s3.result {
                            Err(e) => failed(s3, e),
                            Ok(p2) => done(s3, page_zones(p0, p1, p2)),
                        },
                    },
                },
            },
        },
    }
}

/// Arguments of a `0x8081` single-color write: the color, then up to thirteen zones.
pub open spec fn chunk_args(color: RgbColor, chunk: Seq<u8>) -> Seq<u8> {
    seq![color.red, color.green, color.blue] + chunk + zeros((13 - chunk.len()) as nat)
}

/// The end of the chunk of at most thirteen zones that starts at `from`.
pub open spec fn chunk_end(len: nat, from: nat) -> nat {
    if from + 13 < len {
        from + 13
    } else {
        len
    }
}

/// Single-color writes through function 6 of `zones[from..]`, thirteen zones at a time.
pub open spec fn spec_zone_chunks(
    w: Seq<WireEvent>,
    pos: int,
    d: u8,
    sw: u8,
    index: u8,
    color: RgbColor,
    zones: Seq<u8>,
    from: nat,
) -> Option<Step<()>>
    decreases zones.len() - from,
{
    if from >= zones.len() {
        Some(Step { result: Ok(()), next: pos, sw })
    } else {
        let end = chunk_end(zones.len(), from);
        match spec_call(w, pos, d, index, 6, sw, chunk_args(color, zones.subrange(from as int, end as int))) {
            None => None,
            Some(s) => match s.result {
                Err(e) => failed(s, e),
                Ok(_) => spec_zone_chunks(w, s.next, d, s.sw, index, color, zones, end),
            },
        }
    }
}

/// `0x8081`: the present zones, their single-color writes, and a commit
/// through function 7 when there was any zone.
pub open spec fn spec_per_key_v2(w: Seq<WireEvent>, pos: int, d: u8, sw: u8, index: u8, color: RgbColor) -> Option<
    Step<KeyboardLightingInfo>,
> {
    match spec_presence(w, pos, d, sw, index) {
        None => None,
        Some(s1) => match s1.result {
            Err(e) => failed(s1, e),
            Ok(zones) => {
                let info = KeyboardLightingInfo {
                    backend: KeyboardLightingBackend::PerKeyV2,
                    zones_written: zones.len() as u16,
                };
                match spec_zone_chunks(w, s1.next, d, s1.sw, index, color, zones, 0) {
                    None => None,
                    Some(s2) => match s2.result {
                        Err(e) => failed(s2, e),
                        Ok(_) => if zones.len() == 0 {
                            done(s2, info)
                        } else {
                            match spec_call(w, s2.next, d, index, 7, s2.sw, zeros(16)) {
                                None => None,
                                Some(s3) => match s3.result {
                                    Err(e) => failed(s3, e),
                                    Ok(_) => done(s3, info),
                                },
                            }
                        },
                    },
                }
            },
        },
    }
}

/// Unacknowledged writes of `reports[i..]`, stopping at the first failure.
pub open spec fn spec_report_writes(w: Seq<WireEvent>, pos: int, sw: u8, reports: Seq<Seq<u8>>, i: nat) -> Option<
    Step<()>,
>
    decreases reports.len() - i,
{
    if i >= reports.len() {
        Some(Step { result: Ok(()), next: pos, sw })
    } else if 0 <= pos < w.len() {
        match w[pos] {
            WireEvent::Write { report, outcome } => if report == reports[i as int] {
                match outcome {
                    Err(e) => Some(Step { result: Err(ErrorSpec::Exactly(e)), next: pos + 1, sw }),
                    Ok(_) => spec_report_writes(w, pos + 1, sw, reports, i + 1),
                }
            } else {
                None
            },
            _ => None,
        }
    } else {
        None
    }
}

/// The chunk writes found at `pos` stay what they are when the log grows.
proof fn lemma_zone_chunks_stable(
    w: Seq<WireEvent>,
    w2: Seq<WireEvent>,
    pos: int,
    d: u8,
    sw: u8,
    index: u8,
    color: RgbColor,
    zones: Seq<u8>,
    from: nat,
)
    requires
        extends(w2, w),
        spec_zone_chunks(w, pos, d, sw, index, color, zones, from) is Some,
    ensures
        spec_zone_chunks(w2, pos, d, sw, index, color, zones, from) == spec_zone_chunks(
            w,
            pos,
            d,
            sw,
            index,
            color,
            zones,
            from,
        ),
    decreases zones.len() - from,
{
    if from < zones.len() {
        let end = chunk_end(zones.len(), from);
        let args = chunk_args(color, zones.subrange(from as int, end as int));
        assert(w2[pos] == w[pos]);
        if let Some(s) = spec_call(w, pos, d, index, 6, sw, args) {
            if s.result is Ok {
                lemma_zone_chunks_stable(w, w2, s.next, d, s.sw, index, color, zones, end);
            }
        }
    }
}

/// A `0x8081` write found at `pos` stays what it is when the log grows.
proof fn lemma_per_key_v2_stable(
    w: Seq<WireEvent>,
    w2: Seq<WireEvent>,
    pos: int,
    d: u8,
    sw: u8,
    index: u8,
    color: RgbColor,
)
    requires
        extends(w2, w),
        spec_per_key_v2(w, pos, d, sw, index, color) is Some,
    ensures
        spec_per_key_v2(w2, pos, d, sw, index, color) == spec_per_key_v2(w, pos, d, sw, index, color),
{
    if let Some(s1) = spec_presence(w, pos, d, sw, index) {
        assert(spec_presence(w2, pos, d, sw, index) == spec_presence(w, pos, d, sw, index));
        if let Ok(zones) = s1.result {
            lemma_zone_chunks_stable(w, w2, s1.next, d, s1.sw, index, color, zones, 0);
            if let Some(s2) = spec_zone_chunks(w, s1.next, d, s1.sw, index, color, zones, 0) {
                if s2.result is Ok && zones.len() != 0 {
                    assert(w2[s2.next] == w[s2.next]);
                }
            }
        }
    }
}

/// `0x8080`: the per-key frames and their commit, written without acknowledgement.
pub open spec fn spec_per_key(w: Seq<WireEvent>, pos: int, d: u8, sw: u8, index: u8, color: RgbColor) -> Option<
    Step<KeyboardLightingInfo>,
> {
    match spec_report_writes(w, pos, sw, spec_per_key_reports(d, index, color), 0) {
        None => None,
        Some(s) => match s.result {
            Err(e) => failed(s, e),
            Ok(_) => done(
                s,
                KeyboardLightingInfo { backend: KeyboardLightingBackend::PerKey, zones_written: 0xe9 },
            ),
        },
    }
}

/// The `0x8080` backend when the device has it.
pub open spec fn spec_per_key_fallback(w: Seq<WireEvent>, pos: int, d: u8, sw: u8, color: RgbColor) -> Option<
    Step<KeyboardLightingInfo>,
> {
    match spec_resolve(w, pos, d, sw, PER_KEY_LIGHTING) {
        None => None,
        Some(s) => match s.result {
            Err(e) => failed(s, e),
            Ok(Some(index)) => spec_per_key(w, s.next, d, s.sw, index, color),
            Ok(None) => failed(s, ErrorSpec::Exactly(ForgeError::FeatureUnsupported(PER_KEY_LIGHTING))),
        },
    }
}

/// `set_keyboard_color`: `0x8070` when present; else `0x8081` when present
/// and it wrote a zone; else `0x8080`.
pub open spec fn spec_keyboard_color(w: Seq<WireEvent>, pos: int, d: u8, sw: u8, color: RgbColor) -> Option<
    Step<KeyboardLightingInfo>,
> {
    match spec_resolve(w, pos, d, sw, COLOR_LED_EFFECTS) {
        None => None,
        Some(s1) => match s1.result {
            Err(e) => failed(s1, e),
            Ok(Some(index)) => spec_effects(w, s1.next, d, s1.sw, index, color),
            Ok(None) => match spec_resolve(w, s1.next, d, s1.sw, PER_KEY_LIGHTING_V2) {
                None => None,
                Some(s2) => match s2.result {
                    Err(e) => failed(s2, e),
                    Ok(Some(index)) => match spec_per_key_v2(w, s2.next, d, s2.sw, index, color) {
                        None => None,
                        Some(s3) => match s3.result {
                            Err(e) => failed(s3, e),
                            Ok(info) => if info.zones_written != 0 {
                                done(s3, info)
                            } else {
                                spec_per_key_fallback(w, s3.next, d, s3.sw, color)
                            },
                        },
                    },
                    Ok(None) => spec_per_key_fallback(w, s2.next, d, s2.sw, color),
                },
            },
        },
    }
}

/// A `0x1b04` control row: control id, task id, and the flags from bytes 4 and 8.
pub open spec fn control_row(p: Seq<u8>) -> ReprogControlInfo {
    ReprogControlInfo { cid: be16(p[0], p[1]), task_id: be16(p[2], p[3]), flags: be16(p[8], p[4]) }
}

/// Reading control rows `index..count` through function 1 after the rows `acc`.
pub open spec fn spec_control_rows(
    w: Seq<WireEvent>,
    pos: int,
    d: u8,
    sw: u8,
    fi: u8,
    index: nat,
    count: nat,
    acc: Seq<ReprogControlInfo>,
) -> Option<Step<Seq<ReprogControlInfo>>>
    decreases count - index,
{
    if index >= count {
        Some(Step { result: Ok(acc), next: pos, sw })
    } else {
        match spec_call(w, pos, d, fi, 1, sw, seq![index as u8] + zeros(15)) {
            None => None,
            Some(s) => match s.result {
                Err(e) => failed(s, e),
                Ok(p) => spec_control_rows(w, s.next, d, s.sw, fi, index + 1, count, acc.push(control_row(p))),
            },
        }
    }
}

/// `reprog_controls`: the feature index of `0x1b04` and every control row it lists.
pub open spec fn spec_reprog(w: Seq<WireEvent>, pos: int, d: u8, sw: u8) -> Option<Step<(u8, Seq<ReprogControlInfo>)>> {
    match spec_resolve(w, pos, d, sw, REPROG_CONTROLS) {
        None => None,
        Some(s1) => match s1.result {
            Err(e) => failed(s1, e),
            Ok(None) => failed(s1, ErrorSpec::Exactly(ForgeError::FeatureUnsupported(REPROG_CONTROLS))),
            Ok(Some(fi)) => match spec_call(w, s1.next, d, fi, 0, s1.sw, seq![0u8, 0u8, 0u8]) {
                None => None,
                Some(s2) => match s2.result {
                    Err(e) => failed(s2, e),
                    Ok(p) => match spec_control_rows(w, s2.next, d, s2.sw, fi, 0, p[0] as nat, seq![]) {
                        None => None,
                        Some(s3) => match s3.result {
                            Err(e) => failed(s3, e),
                            Ok(rows) => done(s3, (fi, rows)),
                        },
                    },
                },
            },
        },
    }
}

/// The row `row` of a control listing was requested with function 1 of
/// feature `fi` and answered with a payload whose bytes 0 and 1 are the
/// control id (big-endian), 2 and 3 the task id, and 8 and 4 the flags.
pub open spec fn row_answered(w: Seq<WireEvent>, d: u8, fi: u8, row: int, info: ReprogControlInfo) -> bool {
    exists|q: int, t: u8|
        #![trigger spec_call(w, q, d, fi, 1, t, seq![row as u8] + zeros(15))]
        spec_call(w, q, d, fi, 1, t, seq![row as u8] + zeros(15)) matches Some(c) && c.result matches Ok(p)
            && info.cid == p[0] as int * 256 + p[1] as int
            && info.task_id == p[2] as int * 256 + p[3] as int
            && info.flags == p[8] as int * 256 + p[4] as int
}

proof fn lemma_control_rows_answered(
    w: Seq<WireEvent>,
    pos: int,
    d: u8,
    sw: u8,
    fi: u8,
    index: nat,
    count: nat,
    acc: Seq<ReprogControlInfo>,
)
    requires
        spec_control_rows(w, pos, d, sw, fi, index, count, acc) matches Some(s) && s.result is Ok,
    ensures
        ({
            let rows = spec_control_rows(w, pos, d, sw, fi, index, count, acc)->0.result->Ok_0;
            &&& rows.len() >= acc.len()
            &&& rows.take(acc.len() as int) == acc
            &&& forall|j: int| acc.len() <= j < rows.len() ==> row_answered(w, d, fi, index + j - acc.len(), #[trigger] rows[j])
        }),
    decreases count - index,
{
    if index < count {
        let s = spec_call(w, pos, d, fi, 1, sw, seq![index as u8] + zeros(15))->0;
        let p = s.result->Ok_0;
        let acc2 = acc.push(control_row(p));
        lemma_control_rows_answered(w, s.next, d, s.sw, fi, index + 1, count, acc2);
        let rows = spec_control_rows(w, pos, d, sw, fi, index, count, acc)->0.result->Ok_0;
        assert(rows.take(acc2.len() as int) == acc2);
        assert(rows.take(acc.len() as int) =~= acc2.take(acc.len() as int));
        assert(acc2.take(acc.len() as int) =~= acc);
        assert(rows[acc.len() as int] == rows.take(acc2.len() as int)[acc.len() as int]);
        assert(row_answered(w, d, fi, index as int, rows[acc.len() as int])) by {
            assert(spec_call(w, pos, d, fi, 1, sw, seq![index as u8] + zeros(15)) matches Some(c) && c.result matches Ok(q)
                && rows[acc.len() as int] == control_row(q));
        }
    } else {
        assert(acc.take(acc.len() as int) =~= acc);
    }
}

/// Each control a listing reports is the answer to the request for its row:
/// its id is the big-endian value of bytes 0 and 1 of that row's payload,
/// its task id that of bytes 2 and 3, and its flags that of bytes 8 and 4.
pub proof fn lemma_listed_controls_are_their_rows(w: Seq<WireEvent>, pos: int, d: u8, sw: u8)
    requires
        spec_reprog(w, pos, d, sw) matches Some(s) && s.result is Ok,
    ensures
        ({
            let (fi, rows) = spec_reprog(w, pos, d, sw)->0.result->Ok_0;
            forall|j: int| 0 <= j < rows.len() ==> row_answered(w, d, fi, j, #[trigger] rows[j])
        }),
{
    let s1 = spec_resolve(w, pos, d, sw, REPROG_CONTROLS)->0;
    let fi = s1.result->Ok_0->0;
    let s2 = spec_call(w, s1.next, d, fi, 0, s1.sw, seq![0u8, 0u8, 0u8])->0;
    let p = s2.result->Ok_0;
    lemma_control_rows_answered(w, s2.next, d, s2.sw, fi, 0, p[0] as nat, seq![]);
}

/// A control listing agrees with a specified one.
pub open spec fn controls_fit(
    r: Result<ReprogControlsInfo>,
    s: core::result::Result<(u8, Seq<ReprogControlInfo>), ErrorSpec>,
) -> bool {
    match s {
        Ok((fi, rows)) => r matches Ok(info) && info.feature_index == fi && info.controls@ == rows,
        Err(es) => r matches Err(e) && error_fits(e, es),
    }
}

/// The diversion byte of a `0x1b04` write: bit 0 sets diversion, bit 1 its
/// change mask, bit 5 the persistence change mask.
pub open spec fn diversion_flags(diverted: bool) -> u8 {
    if diverted {
        0x23
    } else {
        0x22
    }
}

/// `set_control_diverted`: the write through function 3, then a read-back
/// through function 2 that must report the same control and diversion.
pub open spec fn spec_set_control_diverted(
    w: Seq<WireEvent>,
    pos: int,
    d: u8,
    sw: u8,
    fi: u8,
    cid: u16,
    diverted: bool,
) -> Option<Step<()>> {
    match spec_call(w, pos, d, fi, 3, sw, seq![high(cid), low(cid), diversion_flags(diverted)] + zeros(13)) {
        None => None,
        Some(s1) => match s1.result {
            Err(e) => failed(s1, e),
            Ok(_) => match spec_call(w, s1.next, d, fi, 2, s1.sw, seq![high(cid), low(cid), 0u8]) {
                None => None,
                Some(s2) => match s2.result {
                    Err(e) => failed(s2, e),
                    Ok(p) => if be16(p[0], p[1]) != cid || ((p[2] % 2 == 1) != diverted) {
                        failed(s2, ErrorSpec::InvalidResponse)
                    } else {
                        done(s2, ())
                    },
                },
            },
        },
    }
}

/// Every event in `w[from..to]` is a report read that carries no
/// diverted-buttons snapshot of feature `fi`.
pub open spec fn unmatched_reads(w: Seq<WireEvent>, from: int, to: int, d: u8, fi: u8) -> bool {
    forall|i: int|
        from <= i < to ==> ((#[trigger] w[i]) matches WireEvent::Read { received: Ok(rep) }
            && spec_diverted_controls(rep, d, fi) is None)
}

/// A result agrees with a specified sequence result.
pub open spec fn vec_fits<T>(r: Result<Vec<T>>, s: core::result::Result<Seq<T>, ErrorSpec>) -> bool {
    match s {
        Ok(v) => r matches Ok(x) && x@ == v,
        Err(es) => r matches Err(e) && error_fits(e, es),
    }
}

fn zero_args() -> (r: Vec<u8>)
    ensures
        r@ == zeros(16),
{
    let mut r: Vec<u8> = Vec::new();
    let mut i: usize = 0;
    while i < 16
        invariant
            0 <= i <= 16,
            r@ == zeros(i as nat),
        decreases 16 - i,
    {
        r.push(0);
        assert(r@ =~= zeros((i + 1) as nat));
        i = i + 1;
    }
    r
}

fn chunk_args_exec(color: RgbColor, zones: &Vec<u8>, from: usize, end: usize) -> (r: Vec<u8>)
    requires
        from <= end <= zones@.len(),
        end - from <= 13,
    ensures
        r@ == chunk_args(color, zones@.subrange(from as int, end as int)),
{
    let mut r: Vec<u8> = Vec::new();
    r.push(color.red);
    r.push(color.green);
    r.push(color.blue);
    let mut i = from;
    while i < end
        invariant
            from <= i <= end,
            end <= zones@.len(),
            r@ == seq![color.red, color.green, color.blue] + zones@.subrange(from as int, i as int),
        decreases end - i,
    {
        r.push(zones[i]);
        assert(zones@.subrange(from as int, i + 1) =~= zones@.subrange(from as int, i as int).push(zones@[i as int]));
        i = i + 1;
    }
    let ghost head = r@;
    while r.len() < 16
        invariant
            head.len() == 3 + (end - from),
            head.len() <= r@.len() <= 16,
            r@ == head + zeros((r@.len() - head.len()) as nat),
        decreases 16 - r@.len(),
    {
        r.push(0);
        assert(r@ =~= head + zeros((r@.len() - head.len()) as nat));
    }
    assert(r@ =~= chunk_args(color, zones@.subrange(from as int, end as int)));
    r
}

fn tail(v: &Vec<u8>, from: usize) -> (r: Vec<u8>)
    requires
        from <= v@.len(),
    ensures
        r@ == v@.skip(from as int),
{
    let mut r: Vec<u8> = Vec::new();
    let mut i = from;
    while i < v.len()
        invariant
            from <= i <= v@.len(),
            r@ == v@.subrange(from as int, i as int),
        decreases v@.len() - i,
    {
        r.push(v[i]);
        assert(v@.subrange(from as int, i + 1) =~= v@.subrange(from as int, i as int).push(v@[i as int]));
        i = i + 1;
    }
    assert(v@.subrange(from as int, v@.len() as int) =~= v@.skip(from as int));
    r
}

fn contains_value(values: &Vec<u16>, x: u16) -> (r: bool)
    ensures
        r == values@.contains(x),
{
    let mut i: usize = 0;
    while i < values.len()
        invariant
            0 <= i <= values@.len(),
            forall|j: int| 0 <= j < i ==> values@[j] != x,
        decreases values@.len() - i,
    {
        if values[i] == x {
            return true;
        }
        i = i + 1;
    }
    false
}

fn bytes3(a: u8, b: u8, c: u8) -> (r: Vec<u8>)
    ensures
        r@ == seq![a, b, c],
{
    let mut r = Vec::new();
    r.push(a);
    r.push(b);
    r.push(c);
    assert(r@ =~= seq![a, b, c]);
    r
}

/// A client that speaks HID++ 2.0 to one device over a transport.
pub struct HidppClient<T> {
    transport: T,
    device_index: u8,
    next_software_id: u8,
    timeout: Duration,
    wire: Ghost<Seq<WireEvent>>,
}

impl<T: HidTransport> HidppClient<T> {
    /// The device index every request carries.
    pub closed spec fn device(&self) -> u8 {
        self.device_index
    }

    /// The software id the next request carries.
    pub closed spec fn software_id(&self) -> u8 {
        self.next_software_id
    }

    /// Every exchange with the transport so far.
    pub closed spec fn wire(&self) -> Seq<WireEvent> {
        self.wire@
    }

    /// The transport the client talks through.
    pub closed spec fn transport(&self) -> T {
        self.transport
    }

    /// How long a request waits for its response.
    pub closed spec fn timeout(&self) -> Duration {
        self.timeout
    }

    /// Software ids stay in 1..=15.
    pub closed spec fn wf(&self) -> bool {
        1 <= self.next_software_id <= 15
    }

    /// The client has performed `step` since `old`, and nothing else.
    pub open spec fn performed<R>(&self, old: &Self, step: Option<Step<R>>) -> bool {
        &&& self.wf()
        &&& self.device() == old.device()
        &&& extends(self.wire(), old.wire())
        &&& step matches Some(s) && s.next == self.wire().len() && s.sw == self.software_id()
    }

    pub fn new(transport: T, device_index: u8) -> (r: Self)
        ensures
            r.wf(),
            r.device() == device_index,
            r.software_id() == 1,
            r.wire().len() == 0,
            r.transport() == transport,
    {
        HidppClient {
            transport,
            device_index,
            next_software_id: 1,
            timeout: crate::time::millis(900),
            wire: Ghost(Seq::empty()),
        }
    }

    pub fn with_timeout(self, timeout: Duration) -> (r: Self)
        ensures
            r.wf() == self.wf(),
            r.device() == self.device(),
            r.software_id() == self.software_id(),
            r.wire() == self.wire(),
            r.transport() == self.transport(),
            r.timeout() == timeout,
    {
        HidppClient { timeout, ..self }
    }

    pub fn into_transport(self) -> (r: T)
        ensures
            r == self.transport(),
    {
        self.transport
    }

    fn software_id_exec(&mut self) -> (r: u8)
        requires
            old(self).wf(),
        ensures
            final(self).wf(),
            r == old(self).software_id(),
            final(self).software_id() == next_sw(r),
            final(self).device() == old(self).device(),
            final(self).wire() == old(self).wire(),
    {
        let current = self.next_software_id;
        self.next_software_id = if current == 0x0f {
            1
        } else {
            current + 1
        };
        current
    }

    /// Sends one request and decodes its response.
    fn call(&mut self, feature_index: u8, function: u8, args: &Vec<u8>) -> (r: Result<Vec<u8>>)
        requires
            old(self).wf(),
            args@.len() == 3 || args@.len() == 16,
        ensures
            final(self).wf(),
            final(self).device() == old(self).device(),
            function > 15 ==> {
                &&& r matches Err(ForgeError::InvalidArgument(m)) && m@ == "function id "@ + decimal_seq(
                    function as nat,
                ) + " exceeds four bits"@
                &&& *final(self) == *old(self)
            },
            function <= 15 ==> {
                &&& extends(final(self).wire(), old(self).wire())
                &&& final(self).wire().len() == old(self).wire().len() + 1
                &&& spec_call(
                    final(self).wire(),
                    old(self).wire().len() as int,
                    old(self).device(),
                    feature_index,
                    function,
                    old(self).software_id(),
                    args@,
                ) matches Some(s) && s.next == final(self).wire().len() && s.sw
                    == final(self).software_id() && match s.result {
                    Ok(p) => r matches Ok(v) && v@ == p,
                    Err(es) => r matches Err(e) && error_fits(e, es),
                }
            },
    {
        if function > 15 {
            let mut text = message("function id ", decimal(function as u64).as_str());
            text.append(" exceeds four bits");
            return Err(ForgeError::InvalidArgument(text));
        }
        let sw = self.software_id_exec();
        let fs: u8 = function * 16 + sw;
        let mut request: Vec<u8> = Vec::new();
        request.push(if args.len() == 3 { SHORT_REPORT_ID } else { LONG_REPORT_ID });
        request.push(self.device_index);
        request.push(feature_index);
        request.push(fs);
        let mut i: usize = 0;
        while i < args.len()
            invariant
                0 <= i <= args@.len(),
                request@.len() == 4 + i,
                request@.take(4) == seq![
                    if args@.len() == 3 { SHORT_REPORT_ID } else { LONG_REPORT_ID },
                    self.device_index,
                    feature_index,
                    fs,
                ],
                forall|j: int| 4 <= j < 4 + i ==> #[trigger] request@[j] == args@[j - 4],
            decreases args@.len() - i,
        {
            request.push(args[i]);
            i = i + 1;
        }
        proof {
            assert(request@[0] == request@.take(4)[0]);
            assert(request@[1] == request@.take(4)[1]);
            assert(request@[2] == request@.take(4)[2]);
            assert(request@[3] == request@.take(4)[3]);
            assert(fs == (function * 16 + sw) as u8);
            if args@.len() == 3 {
                assert(request@ =~= short_request(self.device_index, feature_index, fs, args@));
            } else {
                assert(request@ =~= long_request(self.device_index, feature_index, fs, args@));
            }
            assert(request@ =~= call_request(self.device_index, feature_index, function, sw, args@));
        }
        let response = self.transport.transact(request.as_slice(), self.timeout);
        proof {
            let ghost view = match &response {
                Ok(v) => Ok(v@),
                Err(e) => Err(*e),
            };
            self.wire@ = self.wire@.push(WireEvent::Exchange { request: request@, response: view });
        }
        match response {
            Ok(bytes) => decode_response(bytes.as_slice(), self.device_index, feature_index, fs),
            Err(e) => Err(e),
        }
    }

    /// The client has performed `step` since `old` and returned `r`, its result.
    pub open spec fn finished<R>(&self, old: &Self, step: Option<Step<R>>, r: Result<R>) -> bool {
        &&& self.performed(old, step)
        &&& result_fits(r, step->0.result)
    }

    /// Reads the device's HID++ protocol major and minor version.
    pub fn ping(&mut self) -> (r: Result<(u8, u8)>)
        requires
            old(self).wf(),
        ensures
            final(self).finished(
                old(self),
                spec_ping(final(self).wire(), old(self).wire().len() as int, old(self).device(), old(self).software_id()),
                r,
            ),
    {
        let args = bytes3(0, 0, 0xa5);
        let payload = self.call(ROOT_FEATURE_INDEX, 1, &args)?;
        if payload[2] != 0xa5 {
            return Err(ForgeError::InvalidResponse("ping nonce mismatch".to_owned()));
        }
        Ok((payload[0], payload[1]))
    }

    /// Resolves a stable feature ID to the device's runtime feature index.
    pub fn resolve_feature(&mut self, feature_id: u16) -> (r: Result<Option<u8>>)
        requires
            old(self).wf(),
        ensures
            final(self).finished(
                old(self),
                spec_resolve(final(self).wire(), old(self).wire().len() as int, old(self).device(), old(self).software_id(), feature_id),
                r,
            ),
    {
        let hi = (feature_id >> 8) as u8;
        let lo = (feature_id & 0xff) as u8;
        assert(hi == high(feature_id) && lo == low(feature_id)) by (bit_vector)
            requires
                hi == (feature_id >> 8) as u8,
                lo == (feature_id & 0xff) as u8,
        ;
        let args = bytes3(hi, lo, 0);
        let payload = self.call(ROOT_FEATURE_INDEX, 0, &args)?;
        Ok(if payload[0] != 0 { Some(payload[0]) } else { None })
    }

    /// Resolves every feature the agent uses.
    pub fn feature_map(&mut self) -> (r: Result<FeatureMap>)
        requires
            old(self).wf(),
        ensures
            final(self).finished(
                old(self),
                spec_feature_map(final(self).wire(), old(self).wire().len() as int, old(self).device(), old(self).software_id()),
                r,
            ),
    {
        let unified_battery = self.resolve_feature(UNIFIED_BATTERY)?;
        let legacy_battery = self.resolve_feature(LEGACY_BATTERY)?;
        let adjustable_dpi = self.resolve_feature(ADJUSTABLE_DPI)?;
        let smartshift_enhanced = self.resolve_feature(SMARTSHIFT_ENHANCED)?;
        let smartshift_legacy = self.resolve_feature(SMARTSHIFT_LEGACY)?;
        Ok(FeatureMap { unified_battery, legacy_battery, adjustable_dpi, smartshift_enhanced, smartshift_legacy })
    }

    /// Reads unified or legacy battery state, preferring unified battery data.
    pub fn battery(&mut self) -> (r: Result<BatteryInfo>)
        requires
            old(self).wf(),
        ensures
            final(self).finished(
                old(self),
                spec_battery(final(self).wire(), old(self).wire().len() as int, old(self).device(), old(self).software_id()),
                r,
            ),
    {
        if let Some(index) = self.resolve_feature(UNIFIED_BATTERY)? {
            let payload = self.call(index, 1, &bytes3(0, 0, 0))?;
            return Ok(BatteryInfo {
                percentage: payload[0],
                status: unified_battery_status(payload[2]),
                source_feature: UNIFIED_BATTERY,
            });
        }
        if let Some(index) = self.resolve_feature(LEGACY_BATTERY)? {
            let payload = self.call(index, 0, &bytes3(0, 0, 0))?;
            return Ok(BatteryInfo {
                percentage: payload[0],
                status: legacy_battery_status(payload[2]),
                source_feature: LEGACY_BATTERY,
            });
        }
        Err(ForgeError::FeatureUnsupported(UNIFIED_BATTERY))
    }

    /// Reads current and supported DPI values for sensor zero.
    pub fn dpi(&mut self) -> (r: Result<DpiInfo>)
        requires
            old(self).wf(),
        ensures
            ({
                let s = spec_dpi(final(self).wire(), old(self).wire().len() as int, old(self).device(), old(self).software_id());
                final(self).performed(old(self), s) && dpi_fits(r, s->0.result)
            }),
            r matches Ok(info) ==> strictly_increasing(info.supported@) && info.supported@.len() > 0,
    {
        let index = match self.resolve_feature(ADJUSTABLE_DPI)? {
            Some(index) => index,
            None => {
                return Err(ForgeError::FeatureUnsupported(ADJUSTABLE_DPI));
            },
        };
        let sensor_count = self.call(index, 0, &bytes3(0, 0, 0))?[0];
        if sensor_count == 0 {
            return Err(ForgeError::InvalidResponse("DPI feature reports no sensors".to_owned()));
        }
        let list_payload = self.call(index, 1, &bytes3(0, 0, 0))?;
        let supported = parse_dpi_list(tail(&list_payload, 1).as_slice())?;
        let current_payload = self.call(index, 2, &bytes3(0, 0, 0))?;
        let current = from_be(current_payload[1], current_payload[2]);
        Ok(DpiInfo { current, supported, source_feature: ADJUSTABLE_DPI })
    }

    fn write_dpi(&mut self, dpi: u16) -> (r: Result<DpiInfo>)
        requires
            old(self).wf(),
        ensures
            ({
                let s = spec_dpi_write(final(self).wire(), old(self).wire().len() as int, old(self).device(), old(self).software_id(), dpi);
                final(self).performed(old(self), s) && dpi_fits(r, s->0.result)
            }),
    {
        let index = match self.resolve_feature(ADJUSTABLE_DPI)? {
            Some(index) => index,
            None => {
                return Err(ForgeError::FeatureUnsupported(ADJUSTABLE_DPI));
            },
        };
        let hi = (dpi >> 8) as u8;
        let lo = (dpi & 0xff) as u8;
        assert(hi == high(dpi) && lo == low(dpi)) by (bit_vector)
            requires
                hi == (dpi >> 8) as u8,
                lo == (dpi & 0xff) as u8,
        ;
        self.call(index, 3, &bytes3(0, hi, lo))?;
        let after = self.dpi()?;
        if after.current != dpi {
            return Err(ForgeError::VerificationFailed { requested: dpi, actual: after.current });
        }
        Ok(after)
    }

    /// Writes a supported DPI value and verifies it by reading the sensor back.
    #[verifier::rlimit(40)]
    pub fn set_dpi(&mut self, dpi: u16) -> (r: Result<DpiInfo>)
        requires
            old(self).wf(),
        ensures
            ({
                let s = spec_set_dpi(final(self).wire(), old(self).wire().len() as int, old(self).device(), old(self).software_id(), dpi);
                final(self).performed(old(self), s) && dpi_fits(r, s->0.result)
            }),
            r matches Ok(info) ==> info.current == dpi,
    {
        let before = self.dpi()?;
        if !contains_value(&before.supported, dpi) {
            proof {
                assert(!before.supported@.to_set().contains(dpi));
            }
            return Err(ForgeError::InvalidArgument("DPI is not in the device-supported list".to_owned()));
        }
        proof {
            assert(before.supported@.to_set().contains(dpi));
        }
        self.write_dpi(dpi)
    }

    fn smartshift_read(&mut self, index: u8, enhanced: bool) -> (r: Result<SmartShiftInfo>)
        requires
            old(self).wf(),
        ensures
            final(self).finished(
                old(self),
                spec_smartshift_read(final(self).wire(), old(self).wire().len() as int, old(self).device(), old(self).software_id(), index, enhanced),
                r,
            ),
    {
        let payload = self.call(index, if enhanced { 1 } else { 0 }, &bytes3(0, 0, 0))?;
        let mode = WheelMode::from_wire(payload[0])?;
        Ok(SmartShiftInfo {
            mode,
            auto_disengage: payload[1],
            torque: if enhanced { Some(payload[2]) } else { None },
            feature: if enhanced { SmartShiftFeature::Enhanced } else { SmartShiftFeature::Legacy },
        })
    }

    /// Reads enhanced or legacy `SmartShift` state.
    pub fn smartshift(&mut self) -> (r: Result<SmartShiftInfo>)
        requires
            old(self).wf(),
        ensures
            final(self).finished(
                old(self),
                spec_smartshift(final(self).wire(), old(self).wire().len() as int, old(self).device(), old(self).software_id()),
                r,
            ),
    {
        if let Some(index) = self.resolve_feature(SMARTSHIFT_ENHANCED)? {
            return self.smartshift_read(index, true);
        }
        if let Some(index) = self.resolve_feature(SMARTSHIFT_LEGACY)? {
            return self.smartshift_read(index, false);
        }
        Err(ForgeError::FeatureUnsupported(SMARTSHIFT_ENHANCED))
    }

    /// Writes `SmartShift` mode and optional enhanced torque, then reads the state back.
    pub fn set_smartshift(&mut self, mode: WheelMode, torque: Option<u8>) -> (r: Result<SmartShiftInfo>)
        requires
            old(self).wf(),
        ensures
            final(self).finished(
                old(self),
                spec_set_smartshift(final(self).wire(), old(self).wire().len() as int, old(self).device(), old(self).software_id(), mode, torque),
                r,
            ),
    {
        if let Some(t) = torque {
            if t == 0 || t > 100 {
                return Err(ForgeError::InvalidArgument("SmartShift torque must be between 1 and 100".to_owned()));
            }
        }
        if let Some(index) = self.resolve_feature(SMARTSHIFT_ENHANCED)? {
            let t = match torque {
                Some(t) => t,
                None => 0,
            };
            self.call(index, 2, &bytes3(mode.wire_value(), 0, t))?;
            return self.smartshift();
        }
        if torque.is_some() {
            return Err(ForgeError::FeatureUnsupported(SMARTSHIFT_ENHANCED));
        }
        if let Some(index) = self.resolve_feature(SMARTSHIFT_LEGACY)? {
            self.call(index, 1, &bytes3(mode.wire_value(), 0, 0))?;
            return self.smartshift();
        }
        Err(ForgeError::FeatureUnsupported(SMARTSHIFT_ENHANCED))
    }

    fn fn_lock_read(&mut self, index: u8, feature: FnLockFeature) -> (r: Result<FnLockInfo>)
        requires
            old(self).wf(),
        ensures
            final(self).finished(
                old(self),
                spec_fn_lock_read(final(self).wire(), old(self).wire().len() as int, old(self).device(), old(self).software_id(), index, feature),
                r,
            ),
    {
        let args = if feature == FnLockFeature::MultiHost {
            bytes3(CURRENT_HOST, 0, 0)
        } else {
            bytes3(0, 0, 0)
        };
        let payload = self.call(index, 0, &args)?;
        parse_fn_lock(&payload, feature)
    }

    /// Reads Fn-lock state, preferring the per-host feature used by Easy-Switch keyboards.
    pub fn fn_lock(&mut self) -> (r: Result<FnLockInfo>)
        requires
            old(self).wf(),
        ensures
            final(self).finished(
                old(self),
                spec_fn_lock_state(final(self).wire(), old(self).wire().len() as int, old(self).device(), old(self).software_id()),
                r,
            ),
    {
        if let Some(index) = self.resolve_feature(FN_INVERSION_MULTI_HOST)? {
            return self.fn_lock_read(index, FnLockFeature::MultiHost);
        }
        if let Some(index) = self.resolve_feature(FN_INVERSION_SINGLE_HOST)? {
            return self.fn_lock_read(index, FnLockFeature::SingleHost);
        }
        Err(ForgeError::FeatureUnsupported(FN_INVERSION_MULTI_HOST))
    }

    fn fn_lock_write(&mut self, index: u8, feature: FnLockFeature, enabled: bool) -> (r: Result<FnLockInfo>)
        requires
            old(self).wf(),
        ensures
            final(self).finished(
                old(self),
                spec_fn_lock_write(final(self).wire(), old(self).wire().len() as int, old(self).device(), old(self).software_id(), index, feature, enabled),
                r,
            ),
    {
        let requested: u8 = if enabled { 1 } else { 0 };
        let args = if feature == FnLockFeature::MultiHost {
            bytes3(CURRENT_HOST, requested, 0)
        } else {
            bytes3(requested, 0, 0)
        };
        self.call(index, 1, &args)?;
        self.fn_lock_read(index, feature)
    }

    /// Writes Fn-lock and verifies the resulting state with a read-back.
    pub fn set_fn_lock(&mut self, enabled: bool) -> (r: Result<FnLockInfo>)
        requires
            old(self).wf(),
        ensures
            final(self).finished(
                old(self),
                spec_set_fn_lock(final(self).wire(), old(self).wire().len() as int, old(self).device(), old(self).software_id(), enabled),
                r,
            ),
            r matches Ok(info) ==> info.enabled == enabled,
    {
        let info = if let Some(index) = self.resolve_feature(FN_INVERSION_MULTI_HOST)? {
            self.fn_lock_write(index, FnLockFeature::MultiHost, enabled)?
        } else if let Some(index) = self.resolve_feature(FN_INVERSION_SINGLE_HOST)? {
            self.fn_lock_write(index, FnLockFeature::SingleHost, enabled)?
        } else {
            return Err(ForgeError::FeatureUnsupported(FN_INVERSION_MULTI_HOST));
        };
        if info.enabled != enabled {
            let mut text = message("Fn-lock write verification failed: requested ", bool_text(enabled));
            text.append(", device reports ");
            text.append(bool_text(info.enabled));
            return Err(ForgeError::InvalidResponse(text));
        }
        Ok(info)
    }
    fn pause(&mut self)
        requires
            old(self).wf(),
        ensures
            final(self).wf(),
            final(self).device() == old(self).device(),
            final(self).software_id() == old(self).software_id(),
            final(self).wire() == old(self).wire().push(WireEvent::Pause),
    {
        self.transport.pace(crate::time::millis(8));
        proof {
            self.wire@ = self.wire@.push(WireEvent::Pause);
        }
    }

    fn write_effect_zones(&mut self, index: u8, color: RgbColor, zone: u8, n: u8) -> (r: Result<()>)
        requires
            old(self).wf(),
            zone <= n,
            n <= MAX_EFFECT_ZONES,
        ensures
            final(self).finished(
                old(self),
                spec_effect_writes(final(self).wire(), old(self).wire().len() as int, old(self).device(), old(self).software_id(), index, color, zone as int, n as int),
                r,
            ),
        decreases n - zone,
    {
        if zone >= n {
            return Ok(());
        }
        self.call(index, 3, &fixed_color_args(zone, color))?;
        if zone + 1 < n {
            self.pause();
            return self.write_effect_zones(index, color, zone + 1, n);
        }
        Ok(())
    }

    fn set_color_effects(&mut self, index: u8, color: RgbColor) -> (r: Result<KeyboardLightingInfo>)
        requires
            old(self).wf(),
        ensures
            final(self).finished(
                old(self),
                spec_effects(final(self).wire(), old(self).wire().len() as int, old(self).device(), old(self).software_id(), index, color),
                r,
            ),
    {
        let reported_zones = self.call(index, 0, &bytes3(0, 0, 0))?[0];
        let zones_to_write = if reported_zones == 0 || reported_zones > MAX_EFFECT_ZONES {
            MAX_EFFECT_ZONES
        } else {
            reported_zones
        };
        self.write_effect_zones(index, color, 0, zones_to_write)?;
        Ok(KeyboardLightingInfo {
            backend: KeyboardLightingBackend::Effects,
            zones_written: zones_to_write as u16,
        })
    }

    fn read_presence(&mut self, index: u8) -> (r: Result<Vec<u8>>)
        requires
            old(self).wf(),
        ensures
            ({
                let s = spec_presence(final(self).wire(), old(self).wire().len() as int, old(self).device(), old(self).software_id(), index);
                final(self).performed(old(self), s) && vec_fits(r, s->0.result)
            }),
            r matches Ok(zones) ==> zones@.len() <= 336,
    {
        let mut zones: Vec<u8> = Vec::new();
        let p0 = self.call(index, 0, &bytes3(0, 0, 0))?;
        assert(p0@.len() == 16);
        collect_present_zones(0, tail(&p0, 2).as_slice(), &mut zones);
        let p1 = self.call(index, 0, &bytes3(0, 1, 0))?;
        assert(p1@.len() == 16);
        collect_present_zones(112, tail(&p1, 2).as_slice(), &mut zones);
        let p2 = self.call(index, 0, &bytes3(0, 2, 0))?;
        assert(p2@.len() == 16);
        collect_present_zones(224, tail(&p2, 2).as_slice(), &mut zones);
        proof {
            assert(zones@ =~= page_zones(p0@, p1@, p2@));
            lemma_page_zones_len(p0@, p1@, p2@);
        }
        Ok(zones)
    }

    fn write_zone_chunks(&mut self, index: u8, color: RgbColor, zones: &Vec<u8>, from: usize) -> (r: Result<()>)
        requires
            old(self).wf(),
            from <= zones@.len(),
        ensures
            final(self).finished(
                old(self),
                spec_zone_chunks(final(self).wire(), old(self).wire().len() as int, old(self).device(), old(self).software_id(), index, color, zones@, from as nat),
                r,
            ),
        decreases zones@.len() - from,
    {
        if from >= zones.len() {
            return Ok(());
        }
        let end = if zones.len() - from > 13 {
            from + 13
        } else {
            zones.len()
        };
        let args = chunk_args_exec(color, zones, from, end);
        self.call(index, 6, &args)?;
        self.write_zone_chunks(index, color, zones, end)
    }

    fn set_color_per_key_v2(&mut self, index: u8, color: RgbColor) -> (r: Result<KeyboardLightingInfo>)
        requires
            old(self).wf(),
        ensures
            final(self).finished(
                old(self),
                spec_per_key_v2(final(self).wire(), old(self).wire().len() as int, old(self).device(), old(self).software_id(), index, color),
                r,
            ),
    {
        let ghost w0 = self.wire();
        let zones = self.read_presence(index)?;
        let ghost w1 = self.wire();
        self.write_zone_chunks(index, color, &zones, 0)?;
        let ghost w2 = self.wire();
        if zones.len() != 0 {
            let commit = self.call(index, 7, &zero_args());
            proof {
                let w3 = self.wire();
                let s1 = spec_presence(w1, w0.len() as int, self.device(), old(self).software_id(), index)->0;
                assert(spec_presence(w3, w0.len() as int, self.device(), old(self).software_id(), index) == spec_presence(w1, w0.len() as int, self.device(), old(self).software_id(), index));
                lemma_zone_chunks_stable(w2, w3, w1.len() as int, self.device(), s1.sw, index, color, zones@, 0);
            }
            commit?;
        }
        Ok(KeyboardLightingInfo {
            backend: KeyboardLightingBackend::PerKeyV2,
            zones_written: zones.len() as u16,
        })
    }

    fn write_reports(&mut self, reports: &Vec<Vec<u8>>, i: usize) -> (r: Result<()>)
        requires
            old(self).wf(),
            i <= reports@.len(),
        ensures
            final(self).finished(
                old(self),
                spec_report_writes(final(self).wire(), old(self).wire().len() as int, old(self).software_id(), reports@.map_values(|v: Vec<u8>| v@), i as nat),
                r,
            ),
        decreases reports@.len() - i,
    {
        if i >= reports.len() {
            return Ok(());
        }
        let outcome = self.transport.write_report(reports[i].as_slice());
        proof {
            let ghost view = match &outcome {
                Ok(_) => Ok(()),
                Err(e) => Err(*e),
            };
            self.wire@ = self.wire@.push(WireEvent::Write { report: reports@[i as int]@, outcome: view });
        }
        match outcome {
            Err(e) => Err(e),
            Ok(()) => self.write_reports(reports, i + 1),
        }
    }

    fn set_color_per_key(&mut self, index: u8, color: RgbColor) -> (r: Result<KeyboardLightingInfo>)
        requires
            old(self).wf(),
        ensures
            final(self).finished(
                old(self),
                spec_per_key(final(self).wire(), old(self).wire().len() as int, old(self).device(), old(self).software_id(), index, color),
                r,
            ),
    {
        let reports = per_key_reports(self.device_index, index, color);
        proof {
            assert(reports@.map_values(|v: Vec<u8>| v@) =~= spec_per_key_reports(self.device_index, index, color));
        }
        self.write_reports(&reports, 0)?;
        Ok(KeyboardLightingInfo { backend: KeyboardLightingBackend::PerKey, zones_written: 0xe9 })
    }

    fn per_key_fallback(&mut self, color: RgbColor) -> (r: Result<KeyboardLightingInfo>)
        requires
            old(self).wf(),
        ensures
            final(self).finished(
                old(self),
                spec_per_key_fallback(final(self).wire(), old(self).wire().len() as int, old(self).device(), old(self).software_id(), color),
                r,
            ),
    {
        if let Some(index) = self.resolve_feature(PER_KEY_LIGHTING)? {
            return self.set_color_per_key(index, color);
        }
        Err(ForgeError::FeatureUnsupported(PER_KEY_LIGHTING))
    }

    /// Applies a volatile fixed RGB color: through `0x8070` when present,
    /// else through `0x8081` when it has zones, else through `0x8080`.
    pub fn set_keyboard_color(&mut self, color: RgbColor) -> (r: Result<KeyboardLightingInfo>)
        requires
            old(self).wf(),
        ensures
            final(self).finished(
                old(self),
                spec_keyboard_color(final(self).wire(), old(self).wire().len() as int, old(self).device(), old(self).software_id(), color),
                r,
            ),
    {
        if let Some(index) = self.resolve_feature(COLOR_LED_EFFECTS)? {
            return self.set_color_effects(index, color);
        }
        if let Some(index) = self.resolve_feature(PER_KEY_LIGHTING_V2)? {
            let ghost w1 = self.wire();
            let ghost sw1 = self.software_id();
            let info = self.set_color_per_key_v2(index, color)?;
            if info.zones_written != 0 {
                return Ok(info);
            }
            let ghost w2 = self.wire();
            let fallback = self.per_key_fallback(color);
            proof {
                lemma_per_key_v2_stable(w2, self.wire(), w1.len() as int, self.device(), sw1, index, color);
            }
            return fallback;
        }
        self.per_key_fallback(color)
    }

    fn control_rows(&mut self, fi: u8, index: u8, count: u8, acc: Vec<ReprogControlInfo>) -> (r: Result<Vec<ReprogControlInfo>>)
        requires
            old(self).wf(),
            index <= count,
        ensures
            ({
                let s = spec_control_rows(final(self).wire(), old(self).wire().len() as int, old(self).device(), old(self).software_id(), fi, index as nat, count as nat, acc@);
                final(self).performed(old(self), s) && vec_fits(r, s->0.result)
            }),
        decreases count - index,
    {
        if index >= count {
            return Ok(acc);
        }
        let mut args = zero_args();
        args.set(0, index);
        assert(args@ =~= seq![index] + zeros(15));
        let payload = self.call(fi, 1, &args)?;
        let row = ReprogControlInfo {
            cid: from_be(payload[0], payload[1]),
            task_id: from_be(payload[2], payload[3]),
            flags: from_be(payload[8], payload[4]),
        };
        let mut acc = acc;
        acc.push(row);
        self.control_rows(fi, index + 1, count, acc)
    }

    /// Enumerates HID++ `0x1b04` controls and their diversion capabilities.
    pub fn reprog_controls(&mut self) -> (r: Result<ReprogControlsInfo>)
        requires
            old(self).wf(),
        ensures
            ({
                let s = spec_reprog(final(self).wire(), old(self).wire().len() as int, old(self).device(), old(self).software_id());
                final(self).performed(old(self), s) && controls_fit(r, s->0.result)
            }),
    {
        let feature_index = match self.resolve_feature(REPROG_CONTROLS)? {
            Some(index) => index,
            None => {
                return Err(ForgeError::FeatureUnsupported(REPROG_CONTROLS));
            },
        };
        let count = self.call(feature_index, 0, &bytes3(0, 0, 0))?[0];
        let controls = self.control_rows(feature_index, 0, count, Vec::new())?;
        Ok(ReprogControlsInfo { feature_index, controls })
    }

    /// Enables or disables temporary diversion for one control and verifies it.
    pub fn set_control_diverted(&mut self, feature_index: u8, cid: u16, diverted: bool) -> (r: Result<()>)
        requires
            old(self).wf(),
        ensures
            final(self).finished(
                old(self),
                spec_set_control_diverted(final(self).wire(), old(self).wire().len() as int, old(self).device(), old(self).software_id(), feature_index, cid, diverted),
                r,
            ),
    {
        let hi = (cid >> 8) as u8;
        let lo = (cid & 0xff) as u8;
        assert(hi == high(cid) && lo == low(cid)) by (bit_vector)
            requires
                hi == (cid >> 8) as u8,
                lo == (cid & 0xff) as u8,
        ;
        let mut args = zero_args();
        args.set(0, hi);
        args.set(1, lo);
        args.set(2, if diverted { 0x23 } else { 0x22 });
        assert(args@ =~= seq![high(cid), low(cid), diversion_flags(diverted)] + zeros(13));
        self.call(feature_index, 3, &args)?;
        let payload = self.call(feature_index, 2, &bytes3(hi, lo, 0))?;
        let reported_cid = from_be(payload[0], payload[1]);
        let state = payload[2];
        let reported = state & 1 != 0;
        assert((state & 1 != 0) == (state % 2 == 1)) by (bit_vector);
        if reported_cid != cid || reported != diverted {
            let mut text = message("control diversion verification failed for 0x", &hex4(cid));
            text.append(": device reports cid=0x");
            text.append(&hex4(reported_cid));
            text.append(" diverted=");
            text.append(bool_text(reported));
            return Err(ForgeError::InvalidResponse(text));
        }
        Ok(())
    }

    /// Waits for the next diverted-buttons snapshot of feature `feature_index`,
    /// skipping other reports, until `timeout` has passed. The wait also ends
    /// with `Timeout` after `u64::MAX` reads, which keeps the loop finite.
    pub fn next_diverted_controls(&mut self, feature_index: u8, timeout: Duration) -> (r: Result<[u16; 4]>)
        requires
            old(self).wf(),
        ensures
            final(self).wf(),
            final(self).device() == old(self).device(),
            final(self).software_id() == old(self).software_id(),
            extends(final(self).wire(), old(self).wire()),
            ({
                let w = final(self).wire();
                let from = old(self).wire().len() as int;
                let d = old(self).device();
                match r {
                    Ok(cids) => {
                        &&& w.len() > from
                        &&& unmatched_reads(w, from, w.len() - 1, d, feature_index)
                        &&& w.last() matches WireEvent::Read { received: Ok(rep) }
                        &&& spec_diverted_controls(rep, d, feature_index) == Some(cids@)
                    },
                    Err(e) => {
                        ||| e is Timeout && unmatched_reads(w, from, w.len() as int, d, feature_index)
                        ||| e is InvalidArgument && w == old(self).wire()
                        ||| {
                            &&& w.len() > from
                            &&& unmatched_reads(w, from, w.len() - 1, d, feature_index)
                            &&& w.last() == WireEvent::Read { received: Err(e) }
                        }
                    },
                }
            }),
    {
        let deadline = match crate::time::checked_after(crate::time::now(), timeout) {
            Some(deadline) => deadline,
            None => {
                return Err(ForgeError::InvalidArgument("timeout exceeds the clock's range".to_owned()));
            },
        };
        let ghost w0 = self.wire@;
        let ghost sw0 = self.next_software_id;
        let mut attempts: u64 = 0;
        loop
            invariant
                1 <= self.next_software_id <= 15,
                self.next_software_id == sw0,
                self.device_index == old(self).device_index,
                w0 == old(self).wire@,
                sw0 == old(self).next_software_id,
                extends(self.wire@, w0),
                unmatched_reads(self.wire@, w0.len() as int, self.wire@.len() as int, self.device_index, feature_index),
            decreases u64::MAX - attempts,
        {
            let left = crate::time::remaining(deadline, crate::time::now());
            if crate::time::is_zero(left) || attempts == u64::MAX {
                return Err(ForgeError::Timeout);
            }
            attempts = attempts + 1;
            let report = self.transport.read_report(left);
            proof {
                let ghost view = match &report {
                    Ok(v) => Ok(v@),
                    Err(e) => Err(*e),
                };
                self.wire@ = self.wire@.push(WireEvent::Read { received: view });
            }
            match report {
                Err(e) => {
                    return Err(e);
                },
                Ok(bytes) => {
                    if let Some(cids) = decode_diverted_controls(bytes.as_slice(), self.device_index, feature_index) {
                        return Ok(cids);
                    }
                },
            }
        }
    }
}

} // verus!
