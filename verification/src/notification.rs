//! The notification codec.
//!
//! The controller reports its state in fixed-width frames: a tag character
//! followed by comma-separated fields, padded with spaces.  A frame is
//! decoded by interpreting it as UTF-8, dispatching on the tag, and parsing
//! each field; a malformed field is a hard decode error, because it means
//! the transport has lost frame alignment.

use crate::interaction::{code_of_chars, CodeV, InteractionCode};
use crate::numerals::{parse_centi_i32, parse_dec_bounded, parse_centi_field, parse_dec_field};
use crate::{Centi, StepNumber};
use vstd::prelude::*;

verus! {

/// The width of every notification frame.
pub const NOTIFICATION_LEN: usize = 17;

/// The controller's power supply, as it reports it.
#[derive(Debug, Clone, Copy, PartialEq, Eq, Structural)]
pub enum Voltage {
    V110,
    V230,
}

/// The temperature units the controller displays.  The wire protocol
/// itself always carries degrees celsius.
#[derive(Debug, Clone, Copy, PartialEq, Eq, Structural)]
pub enum Units {
    Fahrenheit,
    Celsius,
}

/// The current and target temperatures, in hundredths of a degree celsius.
#[derive(Debug, Clone, Copy)]
pub struct Temp {
    pub desired: Centi,
    pub current: Centi,
}

/// The status of the active timer.
#[derive(Debug, Clone, Copy)]
pub struct Timer {
    pub active: bool,
    /// When nonzero this is always the number of whole minutes remaining
    /// plus one: a reading of 2 means one minute and perhaps some seconds.
    pub remaining_minutes: u32,
    pub remaining_seconds: u32,
    /// The total number of minutes the timer started from, plus one.
    pub total_start_time: u32,
}

/// The controller's first status report, tag `Y`.
#[derive(Debug, Clone)]
pub struct Status1 {
    pub heat_active: bool,
    pub pump_active: bool,
    pub auto_mode_active: bool,
    pub step_ramp_active: bool,
    pub interaction_mode_active: bool,
    pub interaction_code: InteractionCode,
    pub step_number: StepNumber,
    pub delayed_heat_mode_active: bool,
}

/// The controller's second status report, tag `W`.
#[derive(Debug, Clone, Copy)]
pub struct Status2 {
    pub heat_power_output_percentage: u8,
    pub timer_paused: bool,
    pub step_mash_mode: bool,
    pub recipe_interrupted: bool,
    pub manual_power_mode: bool,
    pub sparge_water_alert_displayed: bool,
}

/// The target temperature has been reached.
#[derive(Debug, Clone, Copy)]
pub struct TemperatureReached;

/// The controller prompts to add a boil addition.
#[derive(Debug, Clone, Copy)]
pub struct PromptBoilAddition;

/// The controller prompts to heat the sparge water.
#[derive(Debug, Clone, Copy)]
pub struct PromptSpargeWater;

/// The controller awaits the user's confirmation of a prompt.
#[derive(Debug, Clone)]
pub struct Interaction {
    pub interaction_code: InteractionCode,
}

/// The controller's boil temperature, in hundredths of a degree celsius.
#[derive(Debug, Clone, Copy)]
pub struct Boil {
    pub boil_temperature: Centi,
}

/// The controller's power supply and display units.
#[derive(Debug, Clone, Copy)]
pub struct VoltageAndUnits {
    pub voltage: Voltage,
    pub units: Units,
}

/// The controller's firmware version string.
#[derive(Debug, Clone)]
pub struct FirmwareVersion {
    pub firmware_version: String,
}

/// A frame whose tag this crate does not recognise, kept verbatim.
#[derive(Debug, Clone)]
pub struct Other {
    pub tag: char,
    pub data: String,
}

/// A notification received from the controller.
#[derive(Debug, Clone)]
pub enum Notification {
    /// The current and target temperature, tag `X`.
    Temp(Temp),
    /// The status of the active timer, tag `T`.
    Timer(Timer),
    /// The first collection of status fields, tag `Y`.
    Status1(Status1),
    /// The second collection of status fields, tag `W`.
    Status2(Status2),
    /// The target temperature has been reached, tag `E`.
    TemperatureReached(TemperatureReached),
    /// A prompt to add a boil addition, tag `A`.
    PromptBoilAddition(PromptBoilAddition),
    /// A prompt to heat the sparge water, tag `B`.
    PromptSpargeWater(PromptSpargeWater),
    /// A prompt awaiting confirmation, tag `I`.
    Interaction(Interaction),
    /// The answer to a boil-temperature request, tag `C`.
    Boil(Boil),
    /// The answer to a voltage-and-units request, tag `V`.
    VoltageAndUnits(VoltageAndUnits),
    /// The answer to a firmware-version request, tag `F`: the text up to
    /// the first comma.
    FirmwareVersion(FirmwareVersion),
    /// A frame with an unrecognised tag.
    Other(Other),
}

/// Why a frame could not be decoded.
#[derive(Debug, Clone, Copy, PartialEq, Eq, Structural)]
pub enum NotificationConvertError {
    /// The frame is not valid UTF-8.
    InvalidUtf8,
    /// The frame is empty, is missing a field, or holds a field that does
    /// not parse.
    InvalidField,
}

/// The mathematical value of a notification.
pub ghost enum NotifV {
    Temp { desired: int, current: int },
    Timer { active: bool, remaining_minutes: int, remaining_seconds: int, total_start_time: int },
    Status1 {
        heat_active: bool,
        pump_active: bool,
        auto_mode_active: bool,
        step_ramp_active: bool,
        interaction_mode_active: bool,
        interaction_code: CodeV,
        step_number: int,
        delayed_heat_mode_active: bool,
    },
    Status2 {
        heat_power_output_percentage: int,
        timer_paused: bool,
        step_mash_mode: bool,
        recipe_interrupted: bool,
        manual_power_mode: bool,
        sparge_water_alert_displayed: bool,
    },
    TemperatureReached,
    PromptBoilAddition,
    PromptSpargeWater,
    Interaction { interaction_code: CodeV },
    Boil { boil_temperature: int },
    VoltageAndUnits { voltage: Voltage, units: Units },
    FirmwareVersion { firmware_version: Seq<char> },
    Other { tag: char, data: Seq<char> },
}

impl View for Notification {
    type V = NotifV;

    open spec fn view(&self) -> NotifV {
        match self {
            Notification::Temp(p) => NotifV::Temp {
                desired: p.desired as int,
                current: p.current as int,
            },
            Notification::Timer(p) => NotifV::Timer {
                active: p.active,
                remaining_minutes: p.remaining_minutes as int,
                remaining_seconds: p.remaining_seconds as int,
                total_start_time: p.total_start_time as int,
            },
            Notification::Status1(p) => NotifV::Status1 {
                heat_active: p.heat_active,
                pump_active: p.pump_active,
                auto_mode_active: p.auto_mode_active,
                step_ramp_active: p.step_ramp_active,
                interaction_mode_active: p.interaction_mode_active,
                interaction_code: p.interaction_code@,
                step_number: p.step_number as int,
                delayed_heat_mode_active: p.delayed_heat_mode_active,
            },
            Notification::Status2(p) => NotifV::Status2 {
                heat_power_output_percentage: p.heat_power_output_percentage as int,
                timer_paused: p.timer_paused,
                step_mash_mode: p.step_mash_mode,
                recipe_interrupted: p.recipe_interrupted,
                manual_power_mode: p.manual_power_mode,
                sparge_water_alert_displayed: p.sparge_water_alert_displayed,
            },
            Notification::TemperatureReached(_) => NotifV::TemperatureReached,
            Notification::PromptBoilAddition(_) => NotifV::PromptBoilAddition,
            Notification::PromptSpargeWater(_) => NotifV::PromptSpargeWater,
            Notification::Interaction(p) => NotifV::Interaction {
                interaction_code: p.interaction_code@,
            },
            Notification::Boil(p) => NotifV::Boil { boil_temperature: p.boil_temperature as int },
            Notification::VoltageAndUnits(p) => NotifV::VoltageAndUnits {
                voltage: p.voltage,
                units: p.units,
            },
            Notification::FirmwareVersion(p) => NotifV::FirmwareVersion {
                firmware_version: p.firmware_version@,
            },
            Notification::Other(p) => NotifV::Other { tag: p.tag, data: p.data@ },
        }
    }
}

/// The index of the first comma in `f`, or `f.len()` when there is none.
pub open spec fn first_comma(f: Seq<char>) -> int
    decreases f.len(),
{
    if f.len() == 0 {
        0
    } else if f[0] == ',' {
        0
    } else {
        1 + first_comma(f.skip(1))
    }
}

proof fn lemma_first_comma_is(f: Seq<char>, d: int)
    requires
        0 <= d <= f.len(),
        forall|j: int| 0 <= j < d ==> #[trigger] f[j] != ',',
        d < f.len() ==> f[d] == ',',
    ensures
        first_comma(f) == d,
    decreases f.len(),
{
    if f.len() == 0 {
    } else if f[0] == ',' {
        assert(d == 0);
    } else {
        assert(d >= 1);
        let t = f.skip(1);
        assert(forall|j: int| 0 <= j < d - 1 ==> #[trigger] t[j] == f[j + 1]);
        lemma_first_comma_is(t, d - 1);
    }
}

/// The `k`-th comma-separated field of `f`.  Asking past the last comma
/// yields the empty field, which no field parser accepts.
pub open spec fn nth_field(f: Seq<char>, k: nat) -> Seq<char>
    decreases k,
{
    let c = first_comma(f);
    if k == 0 {
        f.take(c)
    } else if c < f.len() {
        nth_field(f.skip(c + 1), (k - 1) as nat)
    } else {
        Seq::empty()
    }
}

/// Locates the first `count` comma-separated fields of `s[from..]`,
/// returning the character range of each.
fn field_bounds(s: &str, from: usize, count: usize) -> (v: Vec<(usize, usize)>)
    requires
        from <= s@.len(),
    ensures
        v@.len() == count,
        forall|k: int|
            0 <= k < count ==> from <= (#[trigger] v@[k]).0 <= v@[k].1 <= s@.len()
                && s@.subrange(v@[k].0 as int, v@[k].1 as int) == nth_field(
                s@.subrange(from as int, s@.len() as int),
                k as nat,
            ),
{
    let ghost rest0 = s@.subrange(from as int, s@.len() as int);
    let n = s.unicode_len();
    let mut v: Vec<(usize, usize)> = Vec::new();
    let mut cur = from;
    let mut k: usize = 0;
    while k < count
        invariant
            from <= cur <= n == s@.len(),
            k <= count,
            v@.len() == k,
            rest0 == s@.subrange(from as int, s@.len() as int),
            forall|j: int|
                0 <= j < k ==> from <= (#[trigger] v@[j]).0 <= v@[j].1 <= s@.len()
                    && s@.subrange(v@[j].0 as int, v@[j].1 as int) == nth_field(rest0, j as nat),
            forall|m: nat|
                m >= k ==> #[trigger] nth_field(rest0, m) == nth_field(
                    s@.subrange(cur as int, s@.len() as int),
                    (m - k) as nat,
                ),
        decreases count - k,
    {
        let ghost cur_rest = s@.subrange(cur as int, s@.len() as int);
        let mut e = cur;
        while e < n && s.get_char(e) != ','
            invariant
                cur <= e <= n == s@.len(),
                forall|j: int| cur <= j < e ==> #[trigger] s@[j] != ',',
            decreases n - e,
        {
            e = e + 1;
        }
        proof {
            assert(forall|j: int|
                0 <= j < cur_rest.len() ==> #[trigger] cur_rest[j] == s@[cur + j]);
            lemma_first_comma_is(cur_rest, e - cur);
            assert(cur_rest.take(e - cur) =~= s@.subrange(cur as int, e as int));
            assert(nth_field(rest0, k as nat) == nth_field(cur_rest, 0));
            assert(nth_field(cur_rest, 0) == cur_rest.take(e - cur));
        }
        v.push((cur, e));
        let ghost old_cur = cur;
        if e < n {
            cur = e + 1;
        } else {
            cur = n;
        }
        proof {
            let new_rest = s@.subrange(cur as int, s@.len() as int);
            let c = first_comma(cur_rest);
            assert(c == e - old_cur);
            assert forall|m: nat| m >= k + 1 implies #[trigger] nth_field(rest0, m) == nth_field(
                new_rest,
                (m - k - 1) as nat,
            ) by {
                assert(nth_field(rest0, m) == nth_field(cur_rest, (m - k) as nat));
                let mm = (m - k) as nat;
                if e < n {
                    assert(c < cur_rest.len());
                    assert(cur_rest.skip(c + 1) =~= new_rest);
                    assert(nth_field(cur_rest, mm) == nth_field(new_rest, (mm - 1) as nat));
                } else {
                    assert(c == cur_rest.len());
                    assert(nth_field(cur_rest, mm) =~= Seq::<char>::empty());
                    assert(new_rest =~= Seq::<char>::empty());
                    lemma_nth_field_empty((mm - 1) as nat);
                    assert(nth_field(new_rest, (mm - 1) as nat) =~= Seq::<char>::empty());
                }
            }
        }
        k = k + 1;
    }
    v
}

proof fn lemma_nth_field_empty(k: nat)
    ensures
        nth_field(Seq::<char>::empty(), k) == Seq::<char>::empty(),
{
    let f = Seq::<char>::empty();
    assert(first_comma(f) == 0);
    if k == 0 {
        assert(f.take(0) =~= f);
    }
}

/// A boolean field: a numeral up to 255, true exactly on 1.
pub open spec fn bool_field(f: Seq<char>) -> Option<bool> {
    match parse_dec_bounded(f, 255) {
        Some(v) => Some(v == 1),
        None => None,
    }
}

/// The meaning of a temperature report's fields.
pub open spec fn temp_model(rest: Seq<char>) -> Result<NotifV, NotificationConvertError> {
    match (parse_centi_i32(nth_field(rest, 0)), parse_centi_i32(nth_field(rest, 1))) {
        (Some(desired), Some(current)) => Ok(NotifV::Temp { desired, current }),
        _ => Err(NotificationConvertError::InvalidField),
    }
}

/// The meaning of a timer report's fields.  On the wire the remaining
/// minutes come before the total start time, which comes before the
/// remaining seconds.
pub open spec fn timer_model(rest: Seq<char>) -> Result<NotifV, NotificationConvertError> {
    match (
        bool_field(nth_field(rest, 0)),
        parse_dec_bounded(nth_field(rest, 1), 0xFFFF_FFFF),
        parse_dec_bounded(nth_field(rest, 2), 0xFFFF_FFFF),
        parse_dec_bounded(nth_field(rest, 3), 0xFFFF_FFFF),
    ) {
        (Some(active), Some(minutes), Some(total), Some(seconds)) => Ok(NotifV::Timer {
            active,
            remaining_minutes: minutes,
            remaining_seconds: seconds,
            total_start_time: total,
        }),
        _ => Err(NotificationConvertError::InvalidField),
    }
}

/// The meaning of a first status report's fields.
pub open spec fn status1_model(rest: Seq<char>) -> Result<NotifV, NotificationConvertError> {
    match (
        bool_field(nth_field(rest, 0)),
        bool_field(nth_field(rest, 1)),
        bool_field(nth_field(rest, 2)),
        bool_field(nth_field(rest, 3)),
        bool_field(nth_field(rest, 4)),
        parse_dec_bounded(nth_field(rest, 6), 255),
        bool_field(nth_field(rest, 7)),
    ) {
        (
            Some(heat_active),
            Some(pump_active),
            Some(auto_mode_active),
            Some(step_ramp_active),
            Some(interaction_mode_active),
            Some(step_number),
            Some(delayed_heat_mode_active),
        ) => Ok(
            NotifV::Status1 {
                heat_active,
                pump_active,
                auto_mode_active,
                step_ramp_active,
                interaction_mode_active,
                interaction_code: code_of_chars(nth_field(rest, 5)),
                step_number,
                delayed_heat_mode_active,
            },
        ),
        _ => Err(NotificationConvertError::InvalidField),
    }
}

/// The meaning of a second status report's fields.
pub open spec fn status2_model(rest: Seq<char>) -> Result<NotifV, NotificationConvertError> {
    match (
        parse_dec_bounded(nth_field(rest, 0), 255),
        bool_field(nth_field(rest, 1)),
        bool_field(nth_field(rest, 2)),
        bool_field(nth_field(rest, 3)),
        bool_field(nth_field(rest, 4)),
        bool_field(nth_field(rest, 5)),
    ) {
        (
            Some(heat_power_output_percentage),
            Some(timer_paused),
            Some(step_mash_mode),
            Some(recipe_interrupted),
            Some(manual_power_mode),
            Some(sparge_water_alert_displayed),
        ) => Ok(
            NotifV::Status2 {
                heat_power_output_percentage,
                timer_paused,
                step_mash_mode,
                recipe_interrupted,
                manual_power_mode,
                sparge_water_alert_displayed,
            },
        ),
        _ => Err(NotificationConvertError::InvalidField),
    }
}

/// The meaning of a boil report's field.
pub open spec fn boil_model(rest: Seq<char>) -> Result<NotifV, NotificationConvertError> {
    match parse_centi_i32(nth_field(rest, 0)) {
        Some(boil_temperature) => Ok(NotifV::Boil { boil_temperature }),
        None => Err(NotificationConvertError::InvalidField),
    }
}

/// The meaning of a voltage-and-units report's fields.  The polarity is
/// inverted from the variant order: 1 means 110 volts and celsius.
pub open spec fn voltage_model(rest: Seq<char>) -> Result<NotifV, NotificationConvertError> {
    match (bool_field(nth_field(rest, 0)), bool_field(nth_field(rest, 1))) {
        (Some(voltage_is_110), Some(units_are_celsius)) => Ok(
            NotifV::VoltageAndUnits {
                voltage: if voltage_is_110 {
                    Voltage::V110
                } else {
                    Voltage::V230
                },
                units: if units_are_celsius {
                    Units::Celsius
                } else {
                    Units::Fahrenheit
                },
            },
        ),
        _ => Err(NotificationConvertError::InvalidField),
    }
}

/// What a frame's characters mean: the first character dispatches, the
/// rest splits into comma-separated fields.  An empty frame and every
/// field-parse failure is a hard decode error; an unrecognised tag is kept
/// verbatim instead.
pub open spec fn frame_chars_model(t: Seq<char>) -> Result<NotifV, NotificationConvertError> {
    if t.len() == 0 {
        Err(NotificationConvertError::InvalidField)
    } else {
        let tag = t[0];
        let rest = t.skip(1);
        if tag == 'A' {
            Ok(NotifV::PromptBoilAddition)
        } else if tag == 'B' {
            Ok(NotifV::PromptSpargeWater)
        } else if tag == 'E' {
            Ok(NotifV::TemperatureReached)
        } else if tag == 'X' {
            temp_model(rest)
        } else if tag == 'T' {
            timer_model(rest)
        } else if tag == 'Y' {
            status1_model(rest)
        } else if tag == 'W' {
            status2_model(rest)
        } else if tag == 'I' {
            Ok(NotifV::Interaction { interaction_code: code_of_chars(nth_field(rest, 0)) })
        } else if tag == 'C' {
            boil_model(rest)
        } else if tag == 'F' {
            Ok(NotifV::FirmwareVersion { firmware_version: nth_field(rest, 0) })
        } else if tag == 'V' {
            voltage_model(rest)
        } else {
            Ok(NotifV::Other { tag, data: rest })
        }
    }
}

/// What a frame's bytes mean: bytes that are not valid UTF-8 are a decode
/// error, anything else means what its characters mean.
pub open spec fn frame_model(bytes: Seq<u8>) -> Result<NotifV, NotificationConvertError> {
    if vstd::utf8::valid_utf8(bytes) {
        frame_chars_model(vstd::utf8::decode_utf8(bytes))
    } else {
        Err(NotificationConvertError::InvalidUtf8)
    }
}

/// Relies on std::str::from_utf8: it succeeds exactly on valid UTF-8
/// input and returns the string whose characters decode those bytes.
#[verifier::external_body]
fn frame_str(bytes: &[u8]) -> (r: Option<&str>)
    ensures
        r is Some <==> vstd::utf8::valid_utf8(bytes@),
        r matches Some(s) ==> s@ == vstd::utf8::decode_utf8(bytes@),
{
    core::str::from_utf8(bytes).ok()
}

/// Parses an already-decoded frame.
#[verifier::rlimit(30)]
pub fn parse_frame_str(s: &str) -> (r: Result<Notification, NotificationConvertError>)
    ensures
        match r {
            Ok(n) => frame_chars_model(s@) == Ok::<NotifV, NotificationConvertError>(n@),
            Err(e) => frame_chars_model(s@) == Err::<NotifV, NotificationConvertError>(e),
        },
{
    let n = s.unicode_len();
    if n == 0 {
        return Err(NotificationConvertError::InvalidField);
    }
    let tag = s.get_char(0);
    let ghost rest = s@.skip(1);
    let fb = field_bounds(s, 1, 8);
    proof {
        assert(s@.subrange(1, s@.len() as int) =~= rest);
    }
    match tag {
        'A' => Ok(Notification::PromptBoilAddition(PromptBoilAddition)),
        'B' => Ok(Notification::PromptSpargeWater(PromptSpargeWater)),
        'E' => Ok(Notification::TemperatureReached(TemperatureReached)),
        'X' => {
            let f0 = fb[0];
            let f1 = fb[1];
            match (
                parse_centi_field(s, f0.0, f0.1),
                parse_centi_field(s, f1.0, f1.1),
            ) {
                (Some(desired), Some(current)) => Ok(
                    Notification::Temp(Temp { desired, current }),
                ),
                _ => Err(NotificationConvertError::InvalidField),
            }
        },
        'T' => {
            let f0 = fb[0];
            let f1 = fb[1];
            let f2 = fb[2];
            let f3 = fb[3];
            match (
                parse_dec_field(s, f0.0, f0.1, 255),
                parse_dec_field(s, f1.0, f1.1, 0xFFFF_FFFF),
                parse_dec_field(s, f2.0, f2.1, 0xFFFF_FFFF),
                parse_dec_field(s, f3.0, f3.1, 0xFFFF_FFFF),
            ) {
                (Some(active), Some(minutes), Some(total), Some(seconds)) => Ok(
                    Notification::Timer(
                        Timer {
                            active: active == 1,
                            remaining_minutes: minutes as u32,
                            remaining_seconds: seconds as u32,
                            total_start_time: total as u32,
                        },
                    ),
                ),
                _ => Err(NotificationConvertError::InvalidField),
            }
        },
        'Y' => {
            let f0 = fb[0];
            let f1 = fb[1];
            let f2 = fb[2];
            let f3 = fb[3];
            let f4 = fb[4];
            let f5 = fb[5];
            let f6 = fb[6];
            let f7 = fb[7];
            match (
                parse_dec_field(s, f0.0, f0.1, 255),
                parse_dec_field(s, f1.0, f1.1, 255),
                parse_dec_field(s, f2.0, f2.1, 255),
                parse_dec_field(s, f3.0, f3.1, 255),
                parse_dec_field(s, f4.0, f4.1, 255),
                parse_dec_field(s, f6.0, f6.1, 255),
                parse_dec_field(s, f7.0, f7.1, 255),
            ) {
                (
                    Some(heat),
                    Some(pump),
                    Some(auto),
                    Some(ramp),
                    Some(inter),
                    Some(step),
                    Some(delayed),
                ) => {
                    let code = InteractionCode::from_str(s.substring_char(f5.0, f5.1));
                    Ok(
                        Notification::Status1(
                            Status1 {
                                heat_active: heat == 1,
                                pump_active: pump == 1,
                                auto_mode_active: auto == 1,
                                step_ramp_active: ramp == 1,
                                interaction_mode_active: inter == 1,
                                interaction_code: code,
                                step_number: step as u8,
                                delayed_heat_mode_active: delayed == 1,
                            },
                        ),
                    )
                },
                _ => Err(NotificationConvertError::InvalidField),
            }
        },
        'W' => {
            let f0 = fb[0];
            let f1 = fb[1];
            let f2 = fb[2];
            let f3 = fb[3];
            let f4 = fb[4];
            let f5 = fb[5];
            match (
                parse_dec_field(s, f0.0, f0.1, 255),
                parse_dec_field(s, f1.0, f1.1, 255),
                parse_dec_field(s, f2.0, f2.1, 255),
                parse_dec_field(s, f3.0, f3.1, 255),
                parse_dec_field(s, f4.0, f4.1, 255),
                parse_dec_field(s, f5.0, f5.1, 255),
            ) {
                (Some(power), Some(paused), Some(mash), Some(inter), Some(manual), Some(sparge)) => Ok(
                    Notification::Status2(
                        Status2 {
                            heat_power_output_percentage: power as u8,
                            timer_paused: paused == 1,
                            step_mash_mode: mash == 1,
                            recipe_interrupted: inter == 1,
                            manual_power_mode: manual == 1,
                            sparge_water_alert_displayed: sparge == 1,
                        },
                    ),
                ),
                _ => Err(NotificationConvertError::InvalidField),
            }
        },
        'I' => {
            let f0 = fb[0];
            let code = InteractionCode::from_str(s.substring_char(f0.0, f0.1));
            Ok(Notification::Interaction(Interaction { interaction_code: code }))
        },
        'C' => {
            let f0 = fb[0];
            match parse_centi_field(s, f0.0, f0.1) {
                Some(boil_temperature) => Ok(Notification::Boil(Boil { boil_temperature })),
                None => Err(NotificationConvertError::InvalidField),
            }
        },
        'F' => {
            let f0 = fb[0];
            let text = s.substring_char(f0.0, f0.1).to_owned();
            Ok(Notification::FirmwareVersion(FirmwareVersion { firmware_version: text }))
        },
        'V' => {
            let f0 = fb[0];
            let f1 = fb[1];
            match (
                parse_dec_field(s, f0.0, f0.1, 255),
                parse_dec_field(s, f1.0, f1.1, 255),
            ) {
                (Some(v), Some(u)) => Ok(
                    Notification::VoltageAndUnits(
                        VoltageAndUnits {
                            voltage: if v == 1 {
                                Voltage::V110
                            } else {
                                Voltage::V230
                            },
                            units: if u == 1 {
                                Units::Celsius
                            } else {
                                Units::Fahrenheit
                            },
                        },
                    ),
                ),
                _ => Err(NotificationConvertError::InvalidField),
            }
        },
        _ => {
            let data = s.substring_char(1, n).to_owned();
            Ok(Notification::Other(Other { tag, data }))
        },
    }
}

impl Notification {
    /// Decodes one frame: the bytes are interpreted as UTF-8 and parsed
    /// by [`frame_chars_model`]'s rules.
    pub fn decode(message: &[u8]) -> (r: Result<Notification, NotificationConvertError>)
        ensures
            match r {
                Ok(n) => frame_model(message@) == Ok::<NotifV, NotificationConvertError>(n@),
                Err(e) => frame_model(message@) == Err::<NotifV, NotificationConvertError>(e),
            },
    {
        match frame_str(message) {
            Some(s) => parse_frame_str(s),
            None => Err(NotificationConvertError::InvalidUtf8),
        }
    }
}

} // verus!
