//! The command codec.
//!
//! Every command to the controller is one fixed-width buffer: a leading
//! ASCII tag character, comma-separated decimal fields with a trailing
//! comma, right-padded with spaces to exactly nineteen bytes.  The
//! controller's historical peers were inconsistent about the trailing comma
//! on zero-field commands; this codec emits it for every variant.

use crate::interaction::{code_chars, CodeV, InteractionCode};
use crate::numerals::{centi_bytes, dec_bytes, push_centi, push_dec};
use crate::{Centi, SpargeProgress, StepNumber};
use vstd::prelude::*;

verus! {

/// The width of every command buffer.
pub const COMMAND_LEN: usize = 19;

/// A delay for the active-timer update command.
#[derive(Debug, Clone, PartialEq, Eq, Structural)]
pub enum Delay {
    Minutes(u32),
    MinutesSeconds(u32, u8),
}

/// Indicates the type of disconnection to perform.
#[derive(Debug, Clone, Copy, PartialEq, Eq, Structural)]
pub enum DisconnectOption {
    /// Disconnects the controller, canceling the session (recipe) if one is
    /// active.
    ManualMode,
    /// Cancels the session (recipe), but leaves the controller connected.
    CancelSession,
    /// Disconnects the controller, and leaves it running in automatic
    /// (recipe) mode.
    AutomaticMode,
}

/// A command to the controller.  Each variant owns exactly the fields its
/// wire form renders.
#[derive(Debug, Clone)]
pub enum Command {
    Reset,
    /// Requests the firmware version; the controller answers with a
    /// firmware-version notification.
    GetFirmwareVersion,
    /// Requests the voltage and temperature units; the controller answers
    /// with a voltage-and-units notification.
    GetVoltageAndUnits,
    /// Requests the active boil temperature; the controller answers with a
    /// boil notification.
    GetBoilTemperature,
    ToggleHeatActive,
    SetHeatActive(bool),
    TogglePumpActive,
    SetPumpActive(bool),
    EnableDelayedHeatTimer { minutes: u32, seconds: u8 },
    CancelActiveTimer,
    UpdateActiveTimer(Delay),
    PauseOrResumeActiveTimer,
    IncrementTargetTemperature,
    DecrementTargetTemperature,
    /// Sets the target temperature, in hundredths of a degree celsius.
    SetTargetTemperature(Centi),
    /// Sets the local boil temperature, in hundredths of a degree celsius.
    SetLocalBoilTemperature(Centi),
    DismissBoilAdditionAlert,
    CancelOrFinishSession,
    PressSet,
    DisableSpargeWaterAlert,
    ResetRecipeInterrupted,
    Disconnect(DisconnectOption),
    SetSpargeProgress(SpargeProgress),
    UpdateStep { step_number: StepNumber, temperature: Centi, time_minutes: u8 },
    SkipToStep {
        step_number: StepNumber,
        can_edit_minutes: u8,
        time_left_minutes: u8,
        time_left_seconds: u8,
        skip_ramp: bool,
        disable_add_grain: bool,
    },
    InteractionComplete,
    SkipToInteraction(InteractionCode),
    SetSpargeCounterActive(bool),
    SetBoilControlActive(bool),
    SetManualPowerControlActive(bool),
    SetSpargeAlertModeActive(bool),
}

/// The wire byte for a boolean field.
pub open spec fn bool_byte(b: bool) -> u8 {
    if b {
        49
    } else {
        48
    }
}

/// A command's unpadded wire form: tag, fields, trailing comma.
pub open spec fn command_body(c: &Command) -> Seq<u8> {
    match c {
        Command::Reset => seq![90u8, 44u8],
        Command::GetFirmwareVersion => seq![88u8, 44u8],
        Command::GetVoltageAndUnits => seq![103u8, 44u8],
        Command::GetBoilTemperature => seq![77u8, 44u8],
        Command::ToggleHeatActive => seq![72u8, 44u8],
        Command::SetHeatActive(active) => seq![75u8, bool_byte(*active), 44u8],
        Command::TogglePumpActive => seq![80u8, 44u8],
        Command::SetPumpActive(active) => seq![76u8, bool_byte(*active), 44u8],
        Command::EnableDelayedHeatTimer { minutes, seconds } => seq![66u8] + dec_bytes(
            *minutes as nat,
        ) + seq![44u8] + dec_bytes(*seconds as nat) + seq![44u8],
        Command::CancelActiveTimer => seq![67u8, 44u8],
        Command::UpdateActiveTimer(delay) => match delay {
            Delay::MinutesSeconds(minutes, seconds) => seq![87u8] + dec_bytes(*minutes as nat)
                + seq![44u8] + dec_bytes(*seconds as nat) + seq![44u8],
            Delay::Minutes(minutes) => seq![83u8] + dec_bytes(*minutes as nat) + seq![44u8],
        },
        Command::PauseOrResumeActiveTimer => seq![71u8, 44u8],
        Command::IncrementTargetTemperature => seq![85u8, 44u8],
        Command::DecrementTargetTemperature => seq![68u8, 44u8],
        Command::SetTargetTemperature(temp) => seq![36u8] + centi_bytes(*temp as int)
            + seq![44u8],
        Command::SetLocalBoilTemperature(temp) => seq![69u8] + centi_bytes(*temp as int)
            + seq![44u8],
        Command::DismissBoilAdditionAlert => seq![65u8, 44u8],
        Command::CancelOrFinishSession => seq![70u8, 44u8],
        Command::PressSet => seq![84u8, 44u8],
        Command::DisableSpargeWaterAlert => seq![86u8, 44u8],
        Command::ResetRecipeInterrupted => seq![33u8, 44u8],
        Command::Disconnect(option) => seq![
            81u8,
            match option {
                DisconnectOption::ManualMode => 48u8,
                DisconnectOption::CancelSession => 49u8,
                DisconnectOption::AutomaticMode => 50u8,
            },
            44u8,
        ],
        Command::SetSpargeProgress(progress) => seq![98u8, 36u8] + dec_bytes(*progress as nat)
            + seq![44u8],
        Command::UpdateStep { step_number, temperature, time_minutes } => seq![97u8] + dec_bytes(
            *step_number as nat,
        ) + seq![44u8] + centi_bytes(*temperature as int) + seq![44u8] + dec_bytes(
            *time_minutes as nat,
        ) + seq![44u8],
        Command::SkipToStep {
            step_number,
            can_edit_minutes,
            time_left_minutes,
            time_left_seconds,
            skip_ramp,
            disable_add_grain,
        } => seq![78u8] + dec_bytes(*step_number as nat) + seq![44u8] + dec_bytes(
            *can_edit_minutes as nat,
        ) + seq![44u8] + dec_bytes(*time_left_minutes as nat) + seq![44u8] + dec_bytes(
            *time_left_seconds as nat,
        ) + seq![44u8, bool_byte(*skip_ramp), 44u8, bool_byte(*disable_add_grain), 44u8],
        Command::InteractionComplete => seq![73u8, 44u8],
        Command::SkipToInteraction(code) => seq![99u8] + vstd::utf8::encode_utf8(
            code_chars(code@),
        ) + seq![44u8],
        Command::SetSpargeCounterActive(active) => seq![100u8, bool_byte(*active), 44u8],
        Command::SetBoilControlActive(active) => seq![101u8, bool_byte(*active), 44u8],
        Command::SetManualPowerControlActive(active) => seq![102u8, bool_byte(*active), 44u8],
        Command::SetSpargeAlertModeActive(active) => seq![104u8, bool_byte(*active), 44u8],
    }
}

/// Right-pads a buffer with spaces to nineteen bytes; a longer buffer is
/// left as it is.
pub open spec fn pad_wire(s: Seq<u8>) -> Seq<u8> {
    if s.len() <= 19 {
        s + Seq::new((19 - s.len()) as nat, |i: int| 32u8)
    } else {
        s
    }
}

/// Whether a command's fields render within the fixed buffer width.  This
/// holds for every variant whose fields are bounded by their types; see
/// [`lemma_command_fits`].
pub open spec fn command_fits(c: &Command) -> bool {
    command_body(c).len() <= 19
}

/// A command's complete wire form: its body padded to nineteen bytes.
pub open spec fn command_wire(c: &Command) -> Seq<u8> {
    pad_wire(command_body(c))
}

/// Pads a command buffer with ASCII spaces to the fixed width.
pub fn finish_command(mut buf: Vec<u8>) -> (r: Vec<u8>)
    ensures
        r@ == pad_wire(buf@),
{
    let ghost orig = buf@;
    while buf.len() < COMMAND_LEN
        invariant
            orig.len() <= 19 ==> orig.len() <= buf@.len() <= 19 && buf@ == orig + Seq::new(
                (buf@.len() - orig.len()) as nat,
                |i: int| 32u8,
            ),
            orig.len() > 19 ==> buf@ == orig,
        decreases 19 - buf@.len(),
    {
        buf.push(32);
        proof {
            assert(buf@ =~= orig + Seq::new((buf@.len() - orig.len()) as nat, |i: int| 32u8));
        }
    }
    proof {
        assert(buf@ =~= pad_wire(orig));
    }
    buf
}

impl Command {
    /// Encodes the command for the controller's write characteristic: its
    /// fields rendered behind the tag character, padded to nineteen bytes.
    pub fn to_vec(&self) -> (r: Vec<u8>)
        requires
            command_fits(self),
        ensures
            r@ == command_wire(self),
            r@.len() == 19,
    {
        let mut out: Vec<u8> = Vec::new();
        match self {
            Command::Reset => {
                out.push(90);
                out.push(44);
            },
            Command::GetFirmwareVersion => {
                out.push(88);
                out.push(44);
            },
            Command::GetVoltageAndUnits => {
                out.push(103);
                out.push(44);
            },
            Command::GetBoilTemperature => {
                out.push(77);
                out.push(44);
            },
            Command::ToggleHeatActive => {
                out.push(72);
                out.push(44);
            },
            Command::SetHeatActive(active) => {
                out.push(75);
                out.push(if *active { 49 } else { 48 });
                out.push(44);
            },
            Command::TogglePumpActive => {
                out.push(80);
                out.push(44);
            },
            Command::SetPumpActive(active) => {
                out.push(76);
                out.push(if *active { 49 } else { 48 });
                out.push(44);
            },
            Command::EnableDelayedHeatTimer { minutes, seconds } => {
                out.push(66);
                push_dec(&mut out, *minutes as u64);
                out.push(44);
                push_dec(&mut out, *seconds as u64);
                out.push(44);
            },
            Command::CancelActiveTimer => {
                out.push(67);
                out.push(44);
            },
            Command::UpdateActiveTimer(delay) => match delay {
                Delay::MinutesSeconds(minutes, seconds) => {
                    out.push(87);
                    push_dec(&mut out, *minutes as u64);
                    out.push(44);
                    push_dec(&mut out, *seconds as u64);
                    out.push(44);
                },
                Delay::Minutes(minutes) => {
                    out.push(83);
                    push_dec(&mut out, *minutes as u64);
                    out.push(44);
                },
            },
            Command::PauseOrResumeActiveTimer => {
                out.push(71);
                out.push(44);
            },
            Command::IncrementTargetTemperature => {
                out.push(85);
                out.push(44);
            },
            Command::DecrementTargetTemperature => {
                out.push(68);
                out.push(44);
            },
            Command::SetTargetTemperature(temp) => {
                out.push(36);
                push_centi(&mut out, *temp);
                out.push(44);
            },
            Command::SetLocalBoilTemperature(temp) => {
                out.push(69);
                push_centi(&mut out, *temp);
                out.push(44);
            },
            Command::DismissBoilAdditionAlert => {
                out.push(65);
                out.push(44);
            },
            Command::CancelOrFinishSession => {
                out.push(70);
                out.push(44);
            },
            Command::PressSet => {
                out.push(84);
                out.push(44);
            },
            Command::DisableSpargeWaterAlert => {
                out.push(86);
                out.push(44);
            },
            Command::ResetRecipeInterrupted => {
                out.push(33);
                out.push(44);
            },
            Command::Disconnect(option) => {
                out.push(81);
                match option {
                    DisconnectOption::ManualMode => out.push(48),
                    DisconnectOption::CancelSession => out.push(49),
                    DisconnectOption::AutomaticMode => out.push(50),
                }
                out.push(44);
            },
            Command::SetSpargeProgress(progress) => {
                out.push(98);
                out.push(36);
                push_dec(&mut out, *progress as u64);
                out.push(44);
            },
            Command::UpdateStep { step_number, temperature, time_minutes } => {
                out.push(97);
                push_dec(&mut out, *step_number as u64);
                out.push(44);
                push_centi(&mut out, *temperature);
                out.push(44);
                push_dec(&mut out, *time_minutes as u64);
                out.push(44);
            },
            Command::SkipToStep {
                step_number,
                can_edit_minutes,
                time_left_minutes,
                time_left_seconds,
                skip_ramp,
                disable_add_grain,
            } => {
                out.push(78);
                push_dec(&mut out, *step_number as u64);
                out.push(44);
                push_dec(&mut out, *can_edit_minutes as u64);
                out.push(44);
                push_dec(&mut out, *time_left_minutes as u64);
                out.push(44);
                push_dec(&mut out, *time_left_seconds as u64);
                out.push(44);
                out.push(if *skip_ramp { 49 } else { 48 });
                out.push(44);
                out.push(if *disable_add_grain { 49 } else { 48 });
                out.push(44);
            },
            Command::InteractionComplete => {
                out.push(73);
                out.push(44);
            },
            Command::SkipToInteraction(code) => {
                out.push(99);
                let text = code.to_string();
                out.extend_from_slice(text.as_str().as_bytes());
                out.push(44);
            },
            Command::SetSpargeCounterActive(active) => {
                out.push(100);
                out.push(if *active { 49 } else { 48 });
                out.push(44);
            },
            Command::SetBoilControlActive(active) => {
                out.push(101);
                out.push(if *active { 49 } else { 48 });
                out.push(44);
            },
            Command::SetManualPowerControlActive(active) => {
                out.push(102);
                out.push(if *active { 49 } else { 48 });
                out.push(44);
            },
            Command::SetSpargeAlertModeActive(active) => {
                out.push(104);
                out.push(if *active { 49 } else { 48 });
                out.push(44);
            },
        }
        proof {
            assert(out@ =~= command_body(self));
        }
        finish_command(out)
    }
}

/// Every command buffer is exactly nineteen bytes once its fields fit.
pub proof fn lemma_command_wire_len(c: &Command)
    requires
        command_fits(c),
    ensures
        command_wire(c).len() == 19,
{
}

/// A command whose fields are bounded by their types always fits.  The
/// three variants left out can exceed the buffer for extreme field values
/// (a step update with a very long temperature, a step skip with four
/// three-digit fields, a skip to an unbounded verbatim code); bounds under
/// which they fit too are given by [`lemma_command_fits_bounded`].
pub proof fn lemma_command_fits(c: &Command)
    requires
        !(c matches Command::UpdateStep { .. }),
        !(c matches Command::SkipToStep { .. }),
        !(c matches Command::SkipToInteraction(_)),
    ensures
        command_fits(c),
{
    assert(crate::numerals::pow10(10) == 10000000000) by {
        assert(crate::numerals::pow10(0) == 1);
        assert(crate::numerals::pow10(1) == 10);
        assert(crate::numerals::pow10(2) == 100);
        assert(crate::numerals::pow10(3) == 1000);
        assert(crate::numerals::pow10(4) == 10000);
        assert(crate::numerals::pow10(5) == 100000);
        assert(crate::numerals::pow10(6) == 1000000);
        assert(crate::numerals::pow10(7) == 10000000);
        assert(crate::numerals::pow10(8) == 100000000);
        assert(crate::numerals::pow10(9) == 1000000000);
        assert(crate::numerals::pow10(10) == 10000000000);
    }
    assert(crate::numerals::pow10(3) == 1000) by {
        assert(crate::numerals::pow10(0) == 1);
        assert(crate::numerals::pow10(1) == 10);
        assert(crate::numerals::pow10(2) == 100);
        assert(crate::numerals::pow10(3) == 1000);
    }
    match c {
        Command::EnableDelayedHeatTimer { minutes, seconds } => {
            crate::numerals::lemma_dec_bytes_len(*minutes as nat, 10);
            crate::numerals::lemma_dec_bytes_len(*seconds as nat, 3);
        },
        Command::UpdateActiveTimer(delay) => match delay {
            Delay::MinutesSeconds(minutes, seconds) => {
                crate::numerals::lemma_dec_bytes_len(*minutes as nat, 10);
                crate::numerals::lemma_dec_bytes_len(*seconds as nat, 3);
            },
            Delay::Minutes(minutes) => {
                crate::numerals::lemma_dec_bytes_len(*minutes as nat, 10);
            },
        },
        Command::SetTargetTemperature(temp) => {
            crate::numerals::lemma_centi_bytes_len(*temp as int);
        },
        Command::SetLocalBoilTemperature(temp) => {
            crate::numerals::lemma_centi_bytes_len(*temp as int);
        },
        Command::SetSpargeProgress(progress) => {
            crate::numerals::lemma_dec_bytes_len(*progress as nat, 3);
        },
        _ => {},
    }
}

/// The three remaining variants fit once their fields are bounded: a step
/// update whose temperature stays below one hundred thousand degrees, a
/// step skip whose four numeric fields stay below one hundred, and a skip
/// to one of the named codes.
pub proof fn lemma_command_fits_bounded(c: &Command)
    requires
        c matches Command::UpdateStep { temperature, .. } ==> -9999999 <= *temperature
            <= 9999999,
        c matches Command::SkipToStep {
            step_number,
            can_edit_minutes,
            time_left_minutes,
            time_left_seconds,
            ..
        } ==> *step_number <= 99 && *can_edit_minutes <= 99 && *time_left_minutes <= 99
            && *time_left_seconds <= 99,
        c matches Command::SkipToInteraction(code) ==> !(code@ matches CodeV::Other(_)),
    ensures
        c matches Command::UpdateStep { .. } ==> command_fits(c),
        c matches Command::SkipToStep { .. } ==> command_fits(c),
        c matches Command::SkipToInteraction(_) ==> command_fits(c),
{
    assert(crate::numerals::pow10(2) == 100 && crate::numerals::pow10(3) == 1000) by {
        assert(crate::numerals::pow10(0) == 1);
        assert(crate::numerals::pow10(1) == 10);
        assert(crate::numerals::pow10(2) == 100);
        assert(crate::numerals::pow10(3) == 1000);
    }
    match c {
        Command::UpdateStep { step_number, temperature, time_minutes } => {
            crate::numerals::lemma_dec_bytes_len(*step_number as nat, 3);
            crate::numerals::lemma_centi_bytes_len_small(*temperature as int);
            crate::numerals::lemma_dec_bytes_len(*time_minutes as nat, 3);
        },
        Command::SkipToStep {
            step_number,
            can_edit_minutes,
            time_left_minutes,
            time_left_seconds,
            ..
        } => {
            crate::numerals::lemma_dec_bytes_len(*step_number as nat, 2);
            crate::numerals::lemma_dec_bytes_len(*can_edit_minutes as nat, 2);
            crate::numerals::lemma_dec_bytes_len(*time_left_minutes as nat, 2);
            crate::numerals::lemma_dec_bytes_len(*time_left_seconds as nat, 2);
        },
        Command::SkipToInteraction(code) => {
            let chars = code_chars(code@);
            assert(chars.len() == 1);
            assert(vstd::utf8::is_ascii_chars(chars)) by {
                assert((chars[0] as u32) < 128);
            }
            vstd::utf8::is_ascii_chars_encode_utf8(chars);
            assert(vstd::utf8::encode_utf8(chars).len() == 1);
        },
        _ => {},
    }
}

} // verus!
