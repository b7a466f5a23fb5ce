use vstd::prelude::*;

use crate::error::{ForgeError, Result};
use crate::model::{BatteryStatus, FnLockFeature, FnLockInfo, RgbColor};
use crate::text::{decimal, eq_ignore_ascii_case, eq_ignore_case, message, trim, trim_seq};

verus! {

pub const SHORT_REPORT_ID: u8 = 0x10;
pub const LONG_REPORT_ID: u8 = 0x11;
pub const VERY_LONG_REPORT_ID: u8 = 0x12;
pub const SHORT_REPORT_LENGTH: usize = 7;
pub const LONG_REPORT_LENGTH: usize = 20;
pub const DIRECT_DEVICE_INDEX: u8 = 0xff;

/// Big-endian value of two bytes.
pub open spec fn be16(high: u8, low: u8) -> u16 {
    (high as int * 256 + low as int) as u16
}

pub fn from_be(high: u8, low: u8) -> (r: u16)
    ensures
        r == be16(high, low),
{
    (high as u16) * 256 + (low as u16)
}

/// Why a HID++ response could not be turned into a payload.
pub ghost enum DecodeFailure {
    /// The device answered with an error frame for this very request.
    Hidpp { code: u8, feature_index: u8, function: u8 },
    /// The report is malformed or belongs to another request.
    Invalid,
}

/// The 16 payload bytes of a response: the bytes after the 4-byte header, zero-filled.
pub open spec fn spec_payload(response: Seq<u8>) -> Seq<u8> {
    Seq::new(16, |i: int| if 4 + i < response.len() { response[4 + i] } else { 0u8 })
}

/// What a response to the request `(device_index, feature_index, function_and_software)` carries.
pub open spec fn spec_decode(
    response: Seq<u8>,
    device_index: u8,
    feature_index: u8,
    function_and_software: u8,
) -> core::result::Result<Seq<u8>, DecodeFailure> {
    if response.len() == 0 {
        Err(DecodeFailure::Invalid)
    } else if response[0] != SHORT_REPORT_ID && response[0] != LONG_REPORT_ID {
        Err(DecodeFailure::Invalid)
    } else if response.len() != (if response[0] == SHORT_REPORT_ID { 7int } else { 20int }) {
        Err(DecodeFailure::Invalid)
    } else if response[1] != device_index {
        Err(DecodeFailure::Invalid)
    } else if response[2] == 0xff {
        if response[3] == feature_index && response[4] == function_and_software {
            Err(
                DecodeFailure::Hidpp {
                    code: response[5],
                    feature_index,
                    function: function_and_software / 16,
                },
            )
        } else {
            Err(DecodeFailure::Invalid)
        }
    } else if response[2] != feature_index || response[3] != function_and_software {
        Err(DecodeFailure::Invalid)
    } else {
        Ok(spec_payload(response))
    }
}

/// A decoding result agrees with the decoding specification.
pub open spec fn decoded_as(
    r: Result<Vec<u8>>,
    s: core::result::Result<Seq<u8>, DecodeFailure>,
) -> bool {
    match s {
        Ok(payload) => r matches Ok(p) && p@ == payload,
        Err(DecodeFailure::Hidpp { code, feature_index, function }) => r == Err::<
            Vec<u8>,
            ForgeError,
        >(ForgeError::Hidpp { code, feature_index, function }),
        Err(DecodeFailure::Invalid) => r matches Err(ForgeError::InvalidResponse(_)),
    }
}

fn invalid(detail: &str) -> (e: ForgeError)
    ensures
        e matches ForgeError::InvalidResponse(_),
{
    ForgeError::InvalidResponse(detail.to_owned())
}

/// Validates a HID++ response against its request and extracts the 16-byte payload.
pub fn decode_response(
    response: &[u8],
    device_index: u8,
    feature_index: u8,
    function_and_software: u8,
) -> (r: Result<Vec<u8>>)
    ensures
        decoded_as(r, spec_decode(response@, device_index, feature_index, function_and_software)),
{
    if response.len() == 0 {
        return Err(invalid("empty report"));
    }
    let expected_length: usize = if response[0] == SHORT_REPORT_ID {
        SHORT_REPORT_LENGTH
    } else if response[0] == LONG_REPORT_ID {
        LONG_REPORT_LENGTH
    } else {
        return Err(invalid("unexpected report id"));
    };
    if response.len() != expected_length {
        return Err(invalid("report has an unexpected length"));
    }
    if response[1] != device_index {
        return Err(invalid("device index mismatch"));
    }
    if response[2] == 0xff {
        if response[3] == feature_index && response[4] == function_and_software {
            assert(function_and_software >> 4 == function_and_software / 16) by (bit_vector);
            return Err(
                ForgeError::Hidpp {
                    code: response[5],
                    feature_index,
                    function: function_and_software >> 4,
                },
            );
        }
        return Err(invalid("unmatched HID++ error frame"));
    }
    if response[2] != feature_index || response[3] != function_and_software {
        return Err(invalid("response header mismatch"));
    }
    let mut payload: Vec<u8> = Vec::new();
    let mut i: usize = 0;
    while i < 16
        invariant
            0 <= i <= 16,
            payload@.len() == i,
            forall|j: int|
                0 <= j < i ==> #[trigger] payload@[j] == spec_payload(response@)[j],
        decreases 16 - i,
    {
        let byte = if 4 + i < response.len() {
            response[4 + i]
        } else {
            0
        };
        payload.push(byte);
        i = i + 1;
    }
    assert(payload@ =~= spec_payload(response@));
    Ok(payload)
}

/// A short request: report id, device, feature, function and software id, three arguments.
pub open spec fn short_request(
    device_index: u8,
    feature_index: u8,
    function_and_software: u8,
    args: Seq<u8>,
) -> Seq<u8> {
    seq![SHORT_REPORT_ID, device_index, feature_index, function_and_software, args[0], args[1], args[2]]
}

/// A long request: report id, device, feature, function and software id, sixteen arguments.
pub open spec fn long_request(
    device_index: u8,
    feature_index: u8,
    function_and_software: u8,
    args: Seq<u8>,
) -> Seq<u8> {
    seq![LONG_REPORT_ID, device_index, feature_index, function_and_software] + args
}

/// A short request re-encoded as a long report: report id `0x11`, the
/// request's bytes after its id, zero-filled to 20 bytes.
pub open spec fn spec_widened(request: Seq<u8>) -> Seq<u8> {
    Seq::new(
        20,
        |i: int|
            if i == 0 {
                LONG_REPORT_ID
            } else if i < request.len() {
                request[i]
            } else {
                0u8
            },
    )
}

/// Re-encodes a short request as a long report, for receivers that accept
/// only long reports.
pub fn widen_to_long(request: &[u8]) -> (r: Vec<u8>)
    requires
        request@.len() <= LONG_REPORT_LENGTH,
    ensures
        r@ == spec_widened(request@),
{
    let mut r: Vec<u8> = Vec::new();
    r.push(LONG_REPORT_ID);
    let mut i: usize = 1;
    while i < LONG_REPORT_LENGTH
        invariant
            1 <= i <= 20,
            request@.len() <= 20,
            r@.len() == i,
            forall|j: int| 0 <= j < i ==> #[trigger] r@[j] == spec_widened(request@)[j],
        decreases 20 - i,
    {
        let byte = if i < request.len() {
            request[i]
        } else {
            0
        };
        r.push(byte);
        i = i + 1;
    }
    assert(r@ =~= spec_widened(request@));
    r
}

/// Whether a report read from hidraw answers `request`, as a normal or an error frame.
pub open spec fn spec_response_matches(request: Seq<u8>, response: Seq<u8>) -> bool {
    &&& request.len() >= 4
    &&& response.len() >= 4
    &&& response[1] == request[1]
    &&& {
        ||| response[2] == request[2] && response[3] == request[3]
        ||| response.len() >= 6 && response[2] == 0xff && response[3] == request[2] && response[4]
            == request[3]
    }
}

pub fn response_matches(request: &[u8], response: &[u8]) -> (r: bool)
    ensures
        r == spec_response_matches(request@, response@),
{
    if request.len() < 4 || response.len() < 4 || response[1] != request[1] {
        return false;
    }
    let normal = response[2] == request[2] && response[3] == request[3];
    let error = response.len() >= 6 && response[2] == 0xff && response[3] == request[2]
        && response[4] == request[3];
    normal || error
}

/// The four control ids of a diverted-buttons event from feature `feature_index`, if it is one.
pub open spec fn spec_diverted_controls(report: Seq<u8>, device_index: u8, feature_index: u8) -> Option<
    Seq<u16>,
> {
    if report.len() >= 12 && (report[0] == SHORT_REPORT_ID || report[0] == LONG_REPORT_ID)
        && report[1] == device_index && report[2] == feature_index && report[3] == 0 {
        Some(
            seq![
                be16(report[4], report[5]),
                be16(report[6], report[7]),
                be16(report[8], report[9]),
                be16(report[10], report[11]),
            ],
        )
    } else {
        None
    }
}

pub fn decode_diverted_controls(report: &[u8], device_index: u8, feature_index: u8) -> (r: Option<
    [u16; 4],
>)
    ensures
        match spec_diverted_controls(report@, device_index, feature_index) {
            Some(cids) => r matches Some(a) && a@ == cids,
            None => r is None,
        },
{
    if report.len() < 12 || !(report[0] == SHORT_REPORT_ID || report[0] == LONG_REPORT_ID)
        || report[1] != device_index || report[2] != feature_index || report[3] != 0 {
        return None;
    }
    let cids = [
        from_be(report[4], report[5]),
        from_be(report[6], report[7]),
        from_be(report[8], report[9]),
        from_be(report[10], report[11]),
    ];
    assert(cids@ =~= spec_diverted_controls(report@, device_index, feature_index).unwrap());
    Some(cids)
}

/// The `0x1b04` control id of a Signature/MX media-mode F-row position.
pub open spec fn spec_keyboard_control_cid(label: Seq<char>) -> Option<u16> {
    let t = trim_seq(label);
    if eq_ignore_case(t, "F4"@) {
        Some(0x00d4)
    } else if eq_ignore_case(t, "F5"@) {
        Some(0x0103)
    } else if eq_ignore_case(t, "F6"@) {
        Some(0x0108)
    } else if eq_ignore_case(t, "F7"@) {
        Some(0x010a)
    } else if eq_ignore_case(t, "F8"@) {
        Some(0x011c)
    } else if eq_ignore_case(t, "F9"@) {
        Some(0x00e5)
    } else if eq_ignore_case(t, "F10"@) {
        Some(0x00e7)
    } else if eq_ignore_case(t, "F11"@) {
        Some(0x00e8)
    } else if eq_ignore_case(t, "F12"@) {
        Some(0x00e9)
    } else {
        None
    }
}

/// Maps Signature/MX media-mode F-row positions to `0x1b04` control IDs.
pub fn keyboard_control_cid(label: &str) -> (r: Option<u16>)
    ensures
        r == spec_keyboard_control_cid(label@),
{
    let t = trim(label);
    if eq_ignore_ascii_case(t, "F4") {
        Some(0x00d4)
    } else if eq_ignore_ascii_case(t, "F5") {
        Some(0x0103)
    } else if eq_ignore_ascii_case(t, "F6") {
        Some(0x0108)
    } else if eq_ignore_ascii_case(t, "F7") {
        Some(0x010a)
    } else if eq_ignore_ascii_case(t, "F8") {
        Some(0x011c)
    } else if eq_ignore_ascii_case(t, "F9") {
        Some(0x00e5)
    } else if eq_ignore_ascii_case(t, "F10") {
        Some(0x00e7)
    } else if eq_ignore_ascii_case(t, "F11") {
        Some(0x00e8)
    } else if eq_ignore_ascii_case(t, "F12") {
        Some(0x00e9)
    } else {
        None
    }
}

/// Battery status reported by the unified (`0x1004`) and legacy (`0x1000`) battery features.
pub open spec fn spec_battery_status(value: u8) -> BatteryStatus {
    if value == 0 {
        BatteryStatus::Discharging
    } else if value == 1 {
        BatteryStatus::Charging
    } else if value == 2 {
        BatteryStatus::AlmostFull
    } else if value == 3 {
        BatteryStatus::Full
    } else if value == 4 {
        BatteryStatus::SlowCharging
    } else {
        BatteryStatus::Error(value)
    }
}

/// Battery status bytes name the documented states one to one: 0 is
/// discharging, 1 charging, 2 almost full, 3 full, 4 slow charging, and any
/// other byte is an error carrying that byte; different bytes never give the
/// same status.
pub proof fn lemma_battery_states(v: u8, u: u8)
    ensures
        spec_battery_status(0) == BatteryStatus::Discharging,
        spec_battery_status(1) == BatteryStatus::Charging,
        spec_battery_status(2) == BatteryStatus::AlmostFull,
        spec_battery_status(3) == BatteryStatus::Full,
        spec_battery_status(4) == BatteryStatus::SlowCharging,
        v > 4 ==> spec_battery_status(v) == BatteryStatus::Error(v),
        v != u ==> spec_battery_status(v) != spec_battery_status(u),
{
}

pub fn unified_battery_status(value: u8) -> (r: BatteryStatus)
    ensures
        r == spec_battery_status(value),
{
    match value {
        0 => BatteryStatus::Discharging,
        1 => BatteryStatus::Charging,
        2 => BatteryStatus::AlmostFull,
        3 => BatteryStatus::Full,
        4 => BatteryStatus::SlowCharging,
        other => BatteryStatus::Error(other),
    }
}

pub fn legacy_battery_status(value: u8) -> (r: BatteryStatus)
    ensures
        r == spec_battery_status(value),
{
    match value {
        0 => BatteryStatus::Discharging,
        1 => BatteryStatus::Charging,
        2 => BatteryStatus::AlmostFull,
        3 => BatteryStatus::Full,
        4 => BatteryStatus::SlowCharging,
        other => BatteryStatus::Error(other),
    }
}

/// Reads a wire boolean, which must be 0 or 1.
pub fn parse_bool_state(value: u8, field: &str) -> (r: Result<bool>)
    ensures
        value == 0 ==> r == Ok::<bool, ForgeError>(false),
        value == 1 ==> r == Ok::<bool, ForgeError>(true),
        value > 1 ==> r matches Err(ForgeError::InvalidResponse(_)),
{
    match value {
        0 => Ok(false),
        1 => Ok(true),
        _ => {
            let mut m = message(field, " has unknown value ");
            m.append(decimal(value as u64).as_str());
            Err(ForgeError::InvalidResponse(m))
        },
    }
}

/// The Fn-lock state in a read payload; the multi-host feature prefixes a host byte.
pub open spec fn spec_fn_lock(payload: Seq<u8>, feature: FnLockFeature) -> Option<FnLockInfo> {
    let offset: int = if feature == FnLockFeature::MultiHost { 1 } else { 0 };
    if payload[offset] > 1 || payload[offset + 1] > 1 {
        None
    } else {
        Some(
            FnLockInfo {
                enabled: payload[offset] == 1,
                default_enabled: payload[offset + 1] == 1,
                supports_manual_toggle: match feature {
                    FnLockFeature::MultiHost => payload[3] % 2 == 1,
                    FnLockFeature::SingleHost => true,
                },
                feature,
            },
        )
    }
}

pub fn parse_fn_lock(payload: &Vec<u8>, feature: FnLockFeature) -> (r: Result<FnLockInfo>)
    requires
        payload@.len() == 16,
    ensures
        match spec_fn_lock(payload@, feature) {
            Some(info) => r == Ok::<FnLockInfo, ForgeError>(info),
            None => r matches Err(ForgeError::InvalidResponse(_)),
        },
{
    let offset: usize = if feature == FnLockFeature::MultiHost {
        1
    } else {
        0
    };
    let enabled = parse_bool_state(payload[offset], "Fn-lock state")?;
    let default_enabled = parse_bool_state(payload[offset + 1], "Fn-lock default state")?;
    let supports_manual_toggle = match feature {
        FnLockFeature::MultiHost => payload[3] % 2 == 1,
        FnLockFeature::SingleHost => true,
    };
    Ok(FnLockInfo { enabled, default_enabled, supports_manual_toggle, feature })
}

/// Arguments of a `0x8070` write that sets a fixed, RAM-only color on one zone.
pub open spec fn spec_fixed_color_args(zone: u8, color: RgbColor) -> Seq<u8> {
    seq![zone, 1u8, color.red, color.green, color.blue] + Seq::new(11, |i: int| 0u8)
}

pub fn fixed_color_args(zone: u8, color: RgbColor) -> (r: Vec<u8>)
    ensures
        r@ == spec_fixed_color_args(zone, color),
{
    let mut args: Vec<u8> = Vec::new();
    args.push(zone);
    args.push(1);
    args.push(color.red);
    args.push(color.green);
    args.push(color.blue);
    let mut i: usize = 5;
    while i < 16
        invariant
            5 <= i <= 16,
            args@.len() == i,
            args@.subrange(0, 5) == seq![zone, 1u8, color.red, color.green, color.blue],
            forall|j: int| 5 <= j < i ==> #[trigger] args@[j] == 0u8,
        decreases 16 - i,
    {
        args.push(0);
        i = i + 1;
    }
    assert(args@ =~= spec_fixed_color_args(zone, color));
    args
}


/// Why a DPI list payload is rejected.
pub ghost enum DpiListFailure {
    RangeWithoutStart,
    MalformedRange,
    DescendingRange,
}

/// The values a DPI range contributes after its start `current`: every
/// `current + k * step` below `end`, then `end` itself.
pub open spec fn range_tail(current: int, step: int, end: int) -> Seq<u16>
    decreases end - current,
{
    if step > 0 && current + step < end {
        seq![(current + step) as u16] + range_tail(current + step, step, end)
    } else {
        seq![end as u16]
    }
}

/// The DPI values a list payload names from `offset` on, appended to `acc`,
/// in the order the payload gives them. A value `0` ends the list; a value
/// whose top three bits are set is a range marker whose low 13 bits are the
/// step and whose following value is the range's end.
pub open spec fn dpi_entries(bytes: Seq<u8>, offset: int, acc: Seq<u16>) -> core::result::Result<
    Seq<u16>,
    DpiListFailure,
>
    decreases bytes.len() - offset,
{
    if offset < 0 || offset + 1 >= bytes.len() {
        Ok(acc)
    } else {
        let value = be16(bytes[offset], bytes[offset + 1]);
        if value == 0 {
            Ok(acc)
        } else if value / 8192 == 7 {
            let step = value % 8192;
            if acc.len() == 0 {
                Err(DpiListFailure::RangeWithoutStart)
            } else if step == 0 || bytes.len() - offset < 4 {
                Err(DpiListFailure::MalformedRange)
            } else {
                let end = be16(bytes[offset + 2], bytes[offset + 3]);
                let start = acc.last();
                if end < start {
                    Err(DpiListFailure::DescendingRange)
                } else {
                    dpi_entries(bytes, offset + 4, acc + range_tail(start as int, step as int, end as int))
                }
            }
        } else {
            dpi_entries(bytes, offset + 2, acc.push(value))
        }
    }
}

/// `s` is sorted ascending without repeats.
pub open spec fn strictly_increasing(s: Seq<u16>) -> bool {
    forall|i: int, j: int| 0 <= i < j < s.len() ==> s[i] < s[j]
}

/// `s` is sorted ascending.
pub open spec fn ascending(s: Seq<u16>) -> bool {
    forall|i: int, j: int| 0 <= i <= j < s.len() ==> s[i] <= s[j]
}

/// `<[u16]>::sort_unstable`: puts the same values in ascending order.
#[verifier::external_body]
fn sort_values(values: &mut Vec<u16>)
    ensures
        final(values)@.to_multiset() == old(values)@.to_multiset(),
        ascending(final(values)@),
{
    values.sort_unstable();
}

/// Keeps one of each run of equal values of an ascending list.
fn dedup_sorted(values: &Vec<u16>) -> (r: Vec<u16>)
    requires
        ascending(values@),
    ensures
        strictly_increasing(r@),
        r@.to_set() == values@.to_set(),
{
    let mut out: Vec<u16> = Vec::new();
    let mut i: usize = 0;
    while i < values.len()
        invariant
            0 <= i <= values.len(),
            ascending(values@),
            strictly_increasing(out@),
            out@.to_set() == values@.take(i as int).to_set(),
            i > 0 ==> out@.len() > 0 && out@.last() == values@[i - 1],
            i == 0 ==> out@.len() == 0,
        decreases values.len() - i,
    {
        let value = values[i];
        proof {
            assert(values@.take(i + 1) =~= values@.take(i as int).push(value));
            values@.take(i as int).lemma_push_to_set_commute(value);
        }
        if out.len() == 0 || out[out.len() - 1] != value {
            proof {
                out@.lemma_push_to_set_commute(value);
            }
            out.push(value);
        } else {
            assert(out@.to_set().contains(value)) by {
                assert(out@[out@.len() - 1] == value);
            }
            assert(out@.to_set().insert(value) =~= out@.to_set());
        }
        i = i + 1;
    }
    assert(values@.take(values@.len() as int) =~= values@);
    out
}

proof fn lemma_same_multiset_same_set(a: Seq<u16>, b: Seq<u16>)
    requires
        a.to_multiset() == b.to_multiset(),
    ensures
        a.to_set() == b.to_set(),
{
    broadcast use vstd::seq_lib::to_multiset_contains;
    assert forall|x: u16| a.to_set().contains(x) <==> b.to_set().contains(x) by {
        if a.contains(x) {
            vstd::seq_lib::to_multiset_contains(a, x);
            assert(b.to_multiset().count(x) > 0);
            if !b.contains(x) {
                b.to_multiset_ensures();
            }
        }
        if b.contains(x) {
            vstd::seq_lib::to_multiset_contains(b, x);
            if !a.contains(x) {
                a.to_multiset_ensures();
            }
        }
    }
    assert(a.to_set() =~= b.to_set());
}

/// Expands an `0x2201` DPI list payload into its sorted, repeat-free values.
pub fn parse_dpi_list(bytes: &[u8]) -> (r: Result<Vec<u16>>)
    ensures
        match dpi_entries(bytes@, 0, seq![]) {
            Err(_) => r matches Err(ForgeError::InvalidResponse(_)),
            Ok(raw) => if raw.len() == 0 {
                r matches Err(ForgeError::InvalidResponse(_))
            } else {
                r matches Ok(v) && strictly_increasing(v@) && v@.to_set() == raw.to_set() && v@.len() > 0
            },
        },
{
    let mut values: Vec<u16> = Vec::new();
    let mut offset: usize = 0;
    loop
        invariant
            offset <= bytes.len(),
            dpi_entries(bytes@, 0, seq![]) == dpi_entries(bytes@, offset as int, values@),
        ensures
            dpi_entries(bytes@, 0, seq![]) == Ok::<Seq<u16>, DpiListFailure>(values@),
        decreases bytes.len() - offset,
    {
        if bytes.len() - offset < 2 {
            break;
        }
        let value = from_be(bytes[offset], bytes[offset + 1]);
        if value == 0 {
            break;
        }
        assert(value >> 13 == value / 8192) by (bit_vector);
        assert(value & 0x1fff == value % 8192) by (bit_vector);
        if value >> 13 == 0b111 {
            let step = value & 0x1fff;
            if values.len() == 0 {
                return Err(invalid("DPI range has no start"));
            }
            let start = values[values.len() - 1];
            if step == 0 || bytes.len() - offset < 4 {
                return Err(invalid("malformed DPI range"));
            }
            let end = from_be(bytes[offset + 2], bytes[offset + 3]);
            if end < start {
                return Err(invalid("descending DPI range"));
            }
            let ghost before = values@;
            let ghost mut current: int = start as int;
            let mut next: u32 = (start as u32) + (step as u32);
            while next < end as u32
                invariant
                    step > 0,
                    start <= end,
                    start as int <= current <= end as int,
                    next == current + step,
                    values@ + range_tail(current, step as int, end as int) == before + range_tail(
                        start as int,
                        step as int,
                        end as int,
                    ),
                decreases end as int - current,
            {
                let ghost prior = values@;
                values.push(next as u16);
                proof {
                    assert(range_tail(current, step as int, end as int) == seq![next as u16]
                        + range_tail(next as int, step as int, end as int));
                    assert(values@ + range_tail(next as int, step as int, end as int) =~= prior
                        + range_tail(current, step as int, end as int));
                    current = next as int;
                }
                next = next + step as u32;
            }
            let ghost prior = values@;
            values.push(end);
            proof {
                assert(range_tail(current, step as int, end as int) == seq![end]);
                assert(values@ =~= prior + range_tail(current, step as int, end as int));
            }
            offset = offset + 4;
        } else {
            values.push(value);
            offset = offset + 2;
        }
    }
    if values.len() == 0 {
        return Err(invalid("empty DPI list"));
    }
    let ghost raw = values@;
    sort_values(&mut values);
    proof {
        lemma_same_multiset_same_set(values@, raw);
    }
    let unique = dedup_sorted(&values);
    proof {
        assert(raw.to_set().contains(raw[0]));
        assert(unique@.to_set().contains(raw[0]));
    }
    Ok(unique)
}


/// Whether bit `bit` of `byte` is set.
pub open spec fn bit_set(byte: u8, bit: u8) -> bool {
    (byte >> bit) & 1 == 1
}

/// The per-key zones marked present in the first `n` bit positions of a
/// `0x8081` presence bitfield whose first position is zone `base`. Zones 0
/// and 255, and positions past 255, are never lighting zones.
pub open spec fn present_zones(base: int, bits: Seq<u8>, n: int) -> Seq<u8>
    decreases n,
{
    if n <= 0 {
        seq![]
    } else {
        let p = n - 1;
        let prev = present_zones(base, bits, p);
        let zone = base + p;
        if bit_set(bits[p / 8], (p % 8) as u8) && 0 < zone < 255 {
            prev.push(zone as u8)
        } else {
            prev
        }
    }
}

/// The number of presence bits read from a bitfield: at most 14 bytes are used.
pub open spec fn presence_positions(bits: Seq<u8>) -> int {
    8 * (if bits.len() < 14 { bits.len() as int } else { 14 })
}

/// Appends the zones that a `0x8081` presence page marks as present.
pub fn collect_present_zones(base: u16, bitfield: &[u8], zones: &mut Vec<u8>)
    requires
        base <= 224,
    ensures
        final(zones)@ == old(zones)@ + present_zones(
            base as int,
            bitfield@,
            presence_positions(bitfield@),
        ),
{
    let bytes: usize = if bitfield.len() < 14 {
        bitfield.len()
    } else {
        14
    };
    let limit: usize = 8 * bytes;
    let ghost start = zones@;
    let mut p: usize = 0;
    while p < limit
        invariant
            base <= 224,
            bytes <= bitfield@.len(),
            bytes <= 14,
            limit == 8 * bytes,
            limit == presence_positions(bitfield@),
            0 <= p <= limit,
            zones@ == start + present_zones(base as int, bitfield@, p as int),
        decreases limit - p,
    {
        let byte = bitfield[p / 8];
        let bit = (p % 8) as u8;
        let zone: u16 = base + p as u16;
        if (byte >> bit) & 1 == 1 && 0 < zone && zone < 255 {
            zones.push(zone as u8);
        }
        p = p + 1;
    }
}

/// Byte `i` of the `chunk`-th `0x8080` per-key frame: fourteen
/// (key, red, green, blue) slots for keys `14 * chunk ..`, up to key `0xe8`.
pub open spec fn per_key_byte(
    device_index: u8,
    feature_index: u8,
    color: RgbColor,
    chunk: int,
    i: int,
) -> u8 {
    if i == 0 {
        VERY_LONG_REPORT_ID
    } else if i == 1 {
        device_index
    } else if i == 2 {
        feature_index
    } else if i == 3 {
        0x3a
    } else if i == 5 {
        1
    } else if i == 7 {
        14
    } else if i >= 8 && chunk * 14 + (i - 8) / 4 <= 0xe8 {
        let key = chunk * 14 + (i - 8) / 4;
        let k = (i - 8) % 4;
        if k == 0 {
            key as u8
        } else if k == 1 {
            color.red
        } else if k == 2 {
            color.green
        } else {
            color.blue
        }
    } else {
        0
    }
}

/// The unacknowledged `0x8080` frames that color every key `0..=0xe8`:
/// seventeen 64-byte key frames, then a long commit frame.
pub open spec fn spec_per_key_reports(device_index: u8, feature_index: u8, color: RgbColor) -> Seq<
    Seq<u8>,
> {
    Seq::new(
        18,
        |c: int|
            if c < 17 {
                Seq::new(64, |i: int| per_key_byte(device_index, feature_index, color, c, i))
            } else {
                seq![LONG_REPORT_ID, device_index, feature_index, 0x5au8] + Seq::new(
                    16,
                    |i: int| 0u8,
                )
            },
    )
}

fn per_key_byte_exec(device_index: u8, feature_index: u8, color: RgbColor, chunk: usize, i: usize) -> (r:
    u8)
    requires
        chunk < 17,
        i < 64,
    ensures
        r == per_key_byte(device_index, feature_index, color, chunk as int, i as int),
{
    if i == 0 {
        VERY_LONG_REPORT_ID
    } else if i == 1 {
        device_index
    } else if i == 2 {
        feature_index
    } else if i == 3 {
        0x3a
    } else if i == 5 {
        1
    } else if i == 7 {
        14
    } else if i >= 8 && chunk * 14 + (i - 8) / 4 <= 0xe8 {
        let key = chunk * 14 + (i - 8) / 4;
        let k = (i - 8) % 4;
        if k == 0 {
            key as u8
        } else if k == 1 {
            color.red
        } else if k == 2 {
            color.green
        } else {
            color.blue
        }
    } else {
        0
    }
}

pub fn per_key_reports(device_index: u8, feature_index: u8, color: RgbColor) -> (r: Vec<Vec<u8>>)
    ensures
        r@.len() == 18,
        forall|c: int|
            0 <= c < 18 ==> (#[trigger] r@[c])@ == spec_per_key_reports(
                device_index,
                feature_index,
                color,
            )[c],
{
    let ghost spec = spec_per_key_reports(device_index, feature_index, color);
    let mut reports: Vec<Vec<u8>> = Vec::new();
    let mut chunk: usize = 0;
    while chunk < 17
        invariant
            0 <= chunk <= 17,
            spec == spec_per_key_reports(device_index, feature_index, color),
            reports@.len() == chunk,
            forall|c: int| 0 <= c < chunk ==> (#[trigger] reports@[c])@ == spec[c],
        decreases 17 - chunk,
    {
        let mut report: Vec<u8> = Vec::new();
        let mut i: usize = 0;
        while i < 64
            invariant
                chunk < 17,
                0 <= i <= 64,
                report@.len() == i,
                forall|j: int|
                    0 <= j < i ==> #[trigger] report@[j] == per_key_byte(
                        device_index,
                        feature_index,
                        color,
                        chunk as int,
                        j,
                    ),
            decreases 64 - i,
        {
            report.push(per_key_byte_exec(device_index, feature_index, color, chunk, i));
            i = i + 1;
        }
        assert(report@ =~= spec[chunk as int]);
        reports.push(report);
        chunk = chunk + 1;
    }
    let mut commit: Vec<u8> = Vec::new();
    commit.push(LONG_REPORT_ID);
    commit.push(device_index);
    commit.push(feature_index);
    commit.push(0x5a);
    let mut i: usize = 4;
    while i < 20
        invariant
            4 <= i <= 20,
            commit@.len() == i,
            commit@.subrange(0, 4) == seq![LONG_REPORT_ID, device_index, feature_index, 0x5au8],
            forall|j: int| 4 <= j < i ==> #[trigger] commit@[j] == 0u8,
        decreases 20 - i,
    {
        commit.push(0);
        i = i + 1;
    }
    assert(commit@ =~= spec[17]);
    reports.push(commit);
    reports
}

} // verus!
