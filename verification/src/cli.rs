use vstd::prelude::*;

use crate::error::{ForgeError, Result};
use crate::linux::{lemma_parse_narrower, parse_decimal_u16, spec_parse_unsigned};
use crate::text::{eq_ignore_ascii_case, eq_ignore_case, message, str_eq};
use crate::model::WheelMode;
use crate::wire::DIRECT_DEVICE_INDEX;

verus! {

/// The texts of a list of strings.
pub open spec fn texts(v: Seq<String>) -> Seq<Seq<char>> {
    v.map_values(|s: String| s@)
}

/// A refusal of the command line.
pub open spec fn refused<T>(r: Result<T>) -> bool {
    r matches Err(ForgeError::InvalidArgument(_))
}

/// A refusal of the command line with the message `text`.
pub open spec fn refused_with<T>(r: Result<T>, text: Seq<char>) -> bool {
    r matches Err(ForgeError::InvalidArgument(m)) && m@ == text
}

/// The outcome of reading a device index from `v`.
pub open spec fn index_outcome(r: Result<u8>, v: Seq<char>) -> bool {
    match spec_device_index(v) {
        Some(i) => r == Ok::<u8, ForgeError>(i),
        None => refused(r),
    }
}

/// The outcome of reading a torque from `v`.
pub open spec fn torque_outcome(r: Result<Option<u8>>, v: Seq<char>) -> bool {
    match spec_parse_unsigned(v, 10, 0xff) {
        Some(t) => r == Ok::<Option<u8>, ForgeError>(Some(t as u8)),
        None => refused(r),
    }
}

/// The position of the first `flag` in `args`, or `args.len()`.
pub open spec fn first_pos(args: Seq<Seq<char>>, flag: Seq<char>) -> int
    decreases args.len(),
{
    if args.len() == 0 {
        0
    } else if args[0] == flag {
        0
    } else {
        1 + first_pos(args.drop_first(), flag)
    }
}

/// How many times `flag` occurs in `args`.
pub open spec fn count_of(args: Seq<Seq<char>>, flag: Seq<char>) -> nat
    decreases args.len(),
{
    if args.len() == 0 {
        0
    } else {
        (if args[0] == flag {
            1nat
        } else {
            0nat
        }) + count_of(args.drop_first(), flag)
    }
}

/// `args` without the two entries at `p` and `p + 1`.
pub open spec fn without_pair(args: Seq<Seq<char>>, p: int) -> Seq<Seq<char>> {
    args.take(p) + args.skip(p + 2)
}

/// `str::parse::<u8>`: an optional `+` and decimal digits naming a value below 256.
#[verifier::external_body]
pub(crate) fn parse_decimal_u8(s: &str) -> (r: Option<u8>)
    ensures
        match spec_parse_unsigned(s@, 10, 0xff) {
            Some(v) => r == Some(v as u8),
            None => r is None,
        },
{
    s.parse::<u8>().ok()
}

proof fn lemma_texts_remove(v: Seq<String>, i: int)
    requires
        0 <= i < v.len(),
    ensures
        texts(v.remove(i)) == texts(v).remove(i),
{
    assert(texts(v.remove(i)) =~= texts(v).remove(i));
}

/// `first_pos` is the index of the first entry equal to `flag`, or the length.
pub(crate) proof fn lemma_first_pos(args: Seq<Seq<char>>, flag: Seq<char>)
    ensures
        0 <= first_pos(args, flag) <= args.len(),
        first_pos(args, flag) < args.len() ==> args[first_pos(args, flag)] == flag,
        forall|j: int| 0 <= j < first_pos(args, flag) ==> args[j] != flag,
    decreases args.len(),
{
    if args.len() > 0 && args[0] != flag {
        lemma_first_pos(args.drop_first(), flag);
        assert forall|j: int| 0 <= j < first_pos(args, flag) implies args[j] != flag by {
            if j > 0 {
                assert(args[j] == args.drop_first()[j - 1]);
            }
        }
    }
}

/// Scans for `flag`: the first position and whether it occurs more than once.
pub(crate) fn scan_flag(args: &Vec<String>, flag: &str) -> (r: (usize, usize))
    ensures
        r.0 == first_pos(texts(args@), flag@),
        r.1 == if count_of(texts(args@), flag@) > 1 { 2 } else { count_of(texts(args@), flag@) },
{
    let ghost a = texts(args@);
    let mut first: usize = args.len();
    let mut count: usize = 0;
    let mut i: usize = args.len();
    while i > 0
        invariant
            a == texts(args@),
            0 <= i <= args@.len(),
            first == if count_of(a.skip(i as int), flag@) == 0 {
                args@.len() as int
            } else {
                i + first_pos(a.skip(i as int), flag@)
            },
            count == if count_of(a.skip(i as int), flag@) > 1 {
                2
            } else {
                count_of(a.skip(i as int), flag@)
            },
        decreases i,
    {
        i = i - 1;
        proof {
            assert(a.skip(i as int).drop_first() =~= a.skip(i + 1));
            assert(a.skip(i as int)[0] == a[i as int]);
        }
        if str_eq(args[i].as_str(), flag) {
            first = i;
            if count < 2 {
                count = count + 1;
            }
        } else {
            proof {
                if count_of(a.skip(i + 1), flag@) == 0 {
                    lemma_count_zero(a.skip(i + 1), flag@);
                }
            }
        }
    }
    proof {
        assert(a.skip(0) =~= a);
        if count_of(a, flag@) == 0 {
            lemma_count_zero(a, flag@);
        }
    }
    (first, count)
}

proof fn lemma_count_zero(args: Seq<Seq<char>>, flag: Seq<char>)
    requires
        count_of(args, flag) == 0,
    ensures
        first_pos(args, flag) == args.len(),
    decreases args.len(),
{
    if args.len() > 0 {
        lemma_count_zero(args.drop_first(), flag);
    }
}

/// Removes the entries at `p` and `p + 1`, returning the one at `p + 1`.
pub(crate) fn take_pair(args: &mut Vec<String>, p: usize) -> (r: String)
    requires
        p + 1 < old(args)@.len(),
    ensures
        r@ == texts(old(args)@)[p + 1],
        texts(final(args)@) == without_pair(texts(old(args)@), p as int),
{
    let ghost a = old(args)@;
    let n = args.len();
    let value = args.remove(p + 1);
    proof {
        lemma_texts_remove(a, p + 1);
    }
    let ghost b = args@;
    args.remove(p);
    proof {
        lemma_texts_remove(b, p as int);
        assert(texts(a).remove(p + 1).remove(p as int) =~= without_pair(texts(a), p as int));
    }
    value
}

/// Takes the first argument, refusing an empty list with `message`.
pub fn take_first(args: &mut Vec<String>, message: &str) -> (r: Result<String>)
    ensures
        old(args)@.len() == 0 ==> final(args)@ == old(args)@ && refused_with(r, message@),
        old(args)@.len() > 0 ==> final(args)@ == old(args)@.drop_first() && r == Ok::<
            String,
            ForgeError,
        >(old(args)@[0]),
{
    if args.len() == 0 {
        return Err(ForgeError::InvalidArgument(message.to_owned()));
    }
    let first = args.remove(0);
    assert(old(args)@.remove(0) =~= old(args)@.drop_first());
    Ok(first)
}

/// Takes `option <value>` out of the arguments when it occurs once.
pub fn take_optional_value(args: &mut Vec<String>, option: &str) -> (r: Result<Option<String>>)
    ensures
        ({
            let a = texts(old(args)@);
            let p = first_pos(a, option@);
            &&& count_of(a, option@) > 1 ==> final(args)@ == old(args)@ && refused_with(
                r,
                option@ + " may only be specified once"@,
            )
            &&& count_of(a, option@) == 0 ==> final(args)@ == old(args)@ && r == Ok::<
                Option<String>,
                ForgeError,
            >(None)
            &&& count_of(a, option@) == 1 && p + 1 >= a.len() ==> final(args)@ == old(args)@
                && refused_with(r, option@ + " requires a value"@)
            &&& count_of(a, option@) == 1 && p + 1 < a.len() ==> texts(final(args)@) == without_pair(
                a,
                p,
            ) && r is Ok && r->Ok_0 is Some && r->Ok_0->Some_0@ == a[p + 1]
        }),
{
    let (position, count) = scan_flag(args, option);
    if count > 1 {
        return Err(ForgeError::InvalidArgument(message(option, " may only be specified once")));
    }
    if count == 0 {
        return Ok(None);
    }
    proof {
        lemma_first_pos(texts(args@), option@);
    }
    if args.len() - position <= 1 {
        return Err(ForgeError::InvalidArgument(message(option, " requires a value")));
    }
    Ok(Some(take_pair(args, position)))
}

/// The device index a text names: `ff` (any case) for a direct device,
/// or a receiver slot `1..=6`.
pub open spec fn spec_device_index(v: Seq<char>) -> Option<u8> {
    if eq_ignore_case(v, "ff"@) {
        Some(0xff)
    } else {
        match spec_parse_unsigned(v, 10, 0xff) {
            Some(n) => if 1 <= n <= 6 {
                Some(n as u8)
            } else {
                None
            },
            None => None,
        }
    }
}

/// Reads a device index: `ff` for a direct device, or a receiver slot `1..=6`.
pub fn device_index_from(value: &str) -> (r: Result<u8>)
    ensures
        index_outcome(r, value@),
{
    if eq_ignore_ascii_case(value, "ff") {
        return Ok(DIRECT_DEVICE_INDEX);
    }
    proof {
        lemma_parse_narrower(value@, 10, 0xff, 0xff);
    }
    let parsed = match parse_decimal_u8(value) {
        Some(parsed) => parsed,
        None => {
            return Err(ForgeError::InvalidArgument(message("invalid device index ", value)));
        },
    };
    if parsed < 1 || parsed > 6 {
        return Err(ForgeError::InvalidArgument("receiver index must be 1..6 or ff".to_owned()));
    }
    Ok(parsed)
}

/// Takes `--index <ff|1..6>` out of the arguments; a direct device when absent.
pub fn take_index(args: &mut Vec<String>) -> (r: Result<u8>)
    ensures
        ({
            let a = texts(old(args)@);
            let p = first_pos(a, "--index"@);
            &&& p >= a.len() ==> final(args)@ == old(args)@ && r == Ok::<u8, ForgeError>(0xff)
            &&& p < a.len() && p + 1 >= a.len() ==> final(args)@ == old(args)@ && refused(r)
            &&& p + 1 < a.len() ==> texts(final(args)@) == without_pair(a, p) && index_outcome(
                r,
                a[p + 1],
            )
        }),
{
    let (position, _) = scan_flag(args, "--index");
    proof {
        lemma_first_pos(texts(args@), "--index"@);
    }
    if position >= args.len() {
        return Ok(DIRECT_DEVICE_INDEX);
    }
    if position + 1 >= args.len() {
        return Err(ForgeError::InvalidArgument("--index requires a value".to_owned()));
    }
    let value = take_pair(args, position);
    device_index_from(value.as_str())
}

/// Takes `--torque <value>` out of the arguments; `None` when absent.
pub fn take_torque(args: &mut Vec<String>) -> (r: Result<Option<u8>>)
    ensures
        ({
            let a = texts(old(args)@);
            let p = first_pos(a, "--torque"@);
            &&& p >= a.len() ==> final(args)@ == old(args)@ && r == Ok::<Option<u8>, ForgeError>(None)
            &&& p < a.len() && p + 1 >= a.len() ==> final(args)@ == old(args)@ && refused(r)
            &&& p + 1 < a.len() ==> texts(final(args)@) == without_pair(a, p) && torque_outcome(
                r,
                a[p + 1],
            )
        }),
{
    let (position, _) = scan_flag(args, "--torque");
    proof {
        lemma_first_pos(texts(args@), "--torque"@);
    }
    if position >= args.len() {
        return Ok(None);
    }
    if position + 1 >= args.len() {
        return Err(ForgeError::InvalidArgument("--torque requires a value".to_owned()));
    }
    let value = take_pair(args, position);
    proof {
        lemma_parse_narrower(value@, 10, 0xff, 0xff);
    }
    match parse_decimal_u8(value.as_str()) {
        Some(parsed) => Ok(Some(parsed)),
        None => Err(ForgeError::InvalidArgument(message("invalid torque ", value.as_str()))),
    }
}

/// The value of `dpi set`: a decimal below 65536, refused otherwise.
pub fn parse_dpi_value(value: &str) -> (r: Result<u16>)
    ensures
        match spec_parse_unsigned(value@, 10, 0xffff) {
            Some(v) => r == Ok::<u16, ForgeError>(v as u16),
            None => refused_with(r, "invalid DPI value "@ + value@),
        },
{
    match parse_decimal_u16(value) {
        Some(parsed) => Ok(parsed),
        None => Err(ForgeError::InvalidArgument(message("invalid DPI value ", value))),
    }
}

/// The one path argument of a command.
pub fn one_path(args: &Vec<String>) -> (r: Result<String>)
    ensures
        args@.len() == 1 ==> (r matches Ok(p) && p@ == args@[0]@),
        args@.len() != 1 ==> r matches Err(ForgeError::InvalidArgument(_)),
{
    if args.len() != 1 {
        return Err(ForgeError::InvalidArgument("expected one hidraw path".to_owned()));
    }
    Ok(args[0].as_str().to_owned())
}

/// The JSON string escape of one character: backslash, quote and newline
/// are escaped, every other character is kept.
pub open spec fn escape_char(c: char) -> Seq<char> {
    if c == '\\' {
        seq!['\\', '\\']
    } else if c == '"' {
        seq!['\\', '"']
    } else if c == '\n' {
        seq!['\\', 'n']
    } else {
        seq![c]
    }
}

/// The JSON string escape of a text.
pub open spec fn json_escape_seq(s: Seq<char>) -> Seq<char>
    decreases s.len(),
{
    if s.len() == 0 {
        seq![]
    } else {
        json_escape_seq(s.drop_last()) + escape_char(s.last())
    }
}

/// Escapes backslashes, quotes and newlines for a JSON string.
pub fn json_escape(value: &str) -> (r: String)
    ensures
        r@ == json_escape_seq(value@),
{
    proof {
        reveal_strlit("");
    }
    let n = value.unicode_len();
    let mut r = "".to_owned();
    let mut i: usize = 0;
    while i < n
        invariant
            n == value@.len(),
            0 <= i <= n,
            r@ == json_escape_seq(value@.take(i as int)),
        decreases n - i,
    {
        let c = value.get_char(i);
        proof {
            reveal_strlit("\\\\");
            reveal_strlit("\\\"");
            reveal_strlit("\\n");
            assert(value@.take(i + 1).drop_last() =~= value@.take(i as int));
            assert(value@.take(i + 1).last() == c);
        }
        if c == '\\' {
            r.append("\\\\");
        } else if c == '"' {
            r.append("\\\"");
        } else if c == '\n' {
            r.append("\\n");
        } else {
            r.append(value.substring_char(i, i + 1));
            assert(value@.subrange(i as int, i + 1) =~= seq![c]);
        }
        i = i + 1;
    }
    assert(value@.take(n as int) =~= value@);
    r
}


/// The wheel mode a `smartshift set` argument names.
pub fn parse_wheel_mode(value: &str) -> (r: Result<WheelMode>)
    ensures
        value@ == "ratchet"@ ==> r == Ok::<WheelMode, ForgeError>(WheelMode::Ratchet),
        (value@ == "free"@ || value@ == "free-spin"@) ==> r == Ok::<WheelMode, ForgeError>(WheelMode::FreeSpin),
        !(value@ == "ratchet"@ || value@ == "free"@ || value@ == "free-spin"@) ==> refused(r),
{
    proof {
        reveal_strlit("ratchet");
        reveal_strlit("free");
        reveal_strlit("free-spin");
        assert("ratchet"@.len() == 7 && "free"@.len() == 4 && "free-spin"@.len() == 9);
    }
    if str_eq(value, "ratchet") {
        Ok(WheelMode::Ratchet)
    } else if str_eq(value, "free") || str_eq(value, "free-spin") {
        Ok(WheelMode::FreeSpin)
    } else {
        Err(ForgeError::InvalidArgument(message("unknown wheel mode ", value)))
    }
}

/// The Fn-lock state an `on` or `off` argument names.
pub fn parse_on_off(value: &str) -> (r: Result<bool>)
    ensures
        value@ == "on"@ ==> r == Ok::<bool, ForgeError>(true),
        value@ == "off"@ ==> r == Ok::<bool, ForgeError>(false),
        !(value@ == "on"@ || value@ == "off"@) ==> refused(r),
{
    proof {
        reveal_strlit("on");
        reveal_strlit("off");
        assert("on"@.len() == 2 && "off"@.len() == 3);
    }
    if str_eq(value, "on") {
        Ok(true)
    } else if str_eq(value, "off") {
        Ok(false)
    } else {
        Err(
            ForgeError::InvalidArgument(
                message(&message("invalid Fn-lock state ", value), "; expected on or off"),
            ),
        )
    }
}

} // verus!
