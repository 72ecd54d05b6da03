//! Command encoding and notification decoding against known wire forms.

use brew_monitor::command::{Command, Delay, DisconnectOption};
use brew_monitor::interaction::InteractionCode;
use brew_monitor::notification::{Notification, NotificationConvertError, Units, Voltage};

fn padded(prefix: &str) -> Vec<u8> {
    let mut v = prefix.as_bytes().to_vec();
    while v.len() < 19 {
        v.push(b' ');
    }
    v
}

fn frame(prefix: &str) -> Vec<u8> {
    let mut v = prefix.as_bytes().to_vec();
    while v.len() < 17 {
        v.push(b' ');
    }
    v
}

#[test]
fn it_works() {
    assert_eq!(2 + 2, 4);
}

#[test]
fn lib_it_works() {
    assert_eq!(2 + 2, 4);
}

#[test]
fn encode_set_heat_active() {
    let out = Command::SetHeatActive(true).to_vec();
    assert_eq!(out, padded("K1,"));
    assert_eq!(out.len(), 19);
    assert_eq!(&out[..3], b"K1,");
    assert!(out[3..].iter().all(|&b| b == b' '));
}

#[test]
fn encode_zero_field_commands() {
    assert_eq!(Command::Reset.to_vec(), padded("Z,"));
    assert_eq!(Command::GetFirmwareVersion.to_vec(), padded("X,"));
    assert_eq!(Command::GetVoltageAndUnits.to_vec(), padded("g,"));
    assert_eq!(Command::GetBoilTemperature.to_vec(), padded("M,"));
    assert_eq!(Command::ToggleHeatActive.to_vec(), padded("H,"));
    assert_eq!(Command::TogglePumpActive.to_vec(), padded("P,"));
    assert_eq!(Command::CancelActiveTimer.to_vec(), padded("C,"));
    assert_eq!(Command::PauseOrResumeActiveTimer.to_vec(), padded("G,"));
    assert_eq!(Command::IncrementTargetTemperature.to_vec(), padded("U,"));
    assert_eq!(Command::DecrementTargetTemperature.to_vec(), padded("D,"));
    assert_eq!(Command::DismissBoilAdditionAlert.to_vec(), padded("A,"));
    assert_eq!(Command::CancelOrFinishSession.to_vec(), padded("F,"));
    assert_eq!(Command::PressSet.to_vec(), padded("T,"));
    assert_eq!(Command::DisableSpargeWaterAlert.to_vec(), padded("V,"));
    assert_eq!(Command::ResetRecipeInterrupted.to_vec(), padded("!,"));
    assert_eq!(Command::InteractionComplete.to_vec(), padded("I,"));
}

#[test]
fn encode_field_commands() {
    assert_eq!(Command::SetPumpActive(false).to_vec(), padded("L0,"));
    assert_eq!(
        Command::EnableDelayedHeatTimer { minutes: 2, seconds: 30 }.to_vec(),
        padded("B2,30,")
    );
    assert_eq!(
        Command::UpdateActiveTimer(Delay::MinutesSeconds(5, 15)).to_vec(),
        padded("W5,15,")
    );
    assert_eq!(Command::UpdateActiveTimer(Delay::Minutes(90)).to_vec(), padded("S90,"));
    assert_eq!(Command::SetSpargeProgress(7).to_vec(), padded("b$7,"));
    assert_eq!(Command::Disconnect(DisconnectOption::ManualMode).to_vec(), padded("Q0,"));
    assert_eq!(Command::Disconnect(DisconnectOption::CancelSession).to_vec(), padded("Q1,"));
    assert_eq!(Command::Disconnect(DisconnectOption::AutomaticMode).to_vec(), padded("Q2,"));
    assert_eq!(Command::SetSpargeCounterActive(true).to_vec(), padded("d1,"));
    assert_eq!(Command::SetBoilControlActive(false).to_vec(), padded("e0,"));
    assert_eq!(Command::SetManualPowerControlActive(true).to_vec(), padded("f1,"));
    assert_eq!(Command::SetSpargeAlertModeActive(false).to_vec(), padded("h0,"));
}

#[test]
fn encode_temperatures_as_hundredths() {
    // 6650 hundredths render as 66.5: a trailing zero is dropped, like the
    // controller's peers always rendered whole and half degrees.
    assert_eq!(Command::SetTargetTemperature(6650).to_vec(), padded("$66.5,"));
    assert_eq!(Command::SetTargetTemperature(6600).to_vec(), padded("$66,"));
    assert_eq!(Command::SetTargetTemperature(6625).to_vec(), padded("$66.25,"));
    assert_eq!(Command::SetTargetTemperature(-50).to_vec(), padded("$-0.5,"));
    assert_eq!(Command::SetLocalBoilTemperature(9950).to_vec(), padded("E99.5,"));
}

#[test]
fn encode_step_commands() {
    assert_eq!(
        Command::UpdateStep { step_number: 2, temperature: 6550, time_minutes: 45 }.to_vec(),
        padded("a2,65.5,45,")
    );
    let skip = Command::SkipToStep {
        step_number: 3,
        can_edit_minutes: 1,
        time_left_minutes: 10,
        time_left_seconds: 30,
        skip_ramp: true,
        disable_add_grain: false,
    };
    assert_eq!(skip.to_vec(), padded("N3,1,10,30,1,0,"));
}

#[test]
fn encode_skip_to_interaction() {
    assert_eq!(
        Command::SkipToInteraction(InteractionCode::Dismiss).to_vec(),
        padded("cC,")
    );
    assert_eq!(
        Command::SkipToInteraction(InteractionCode::Other("Z".to_string())).to_vec(),
        padded("cZ,")
    );
}

#[test]
fn every_encoded_command_is_nineteen_bytes() {
    let commands = vec![
        Command::Reset,
        Command::GetFirmwareVersion,
        Command::GetVoltageAndUnits,
        Command::GetBoilTemperature,
        Command::ToggleHeatActive,
        Command::SetHeatActive(false),
        Command::TogglePumpActive,
        Command::SetPumpActive(true),
        Command::EnableDelayedHeatTimer { minutes: u32::MAX, seconds: u8::MAX },
        Command::CancelActiveTimer,
        Command::UpdateActiveTimer(Delay::MinutesSeconds(u32::MAX, u8::MAX)),
        Command::UpdateActiveTimer(Delay::Minutes(u32::MAX)),
        Command::PauseOrResumeActiveTimer,
        Command::IncrementTargetTemperature,
        Command::DecrementTargetTemperature,
        Command::SetTargetTemperature(i32::MIN),
        Command::SetTargetTemperature(i32::MAX),
        Command::SetLocalBoilTemperature(0),
        Command::DismissBoilAdditionAlert,
        Command::CancelOrFinishSession,
        Command::PressSet,
        Command::DisableSpargeWaterAlert,
        Command::ResetRecipeInterrupted,
        Command::Disconnect(DisconnectOption::ManualMode),
        Command::SetSpargeProgress(u8::MAX),
        Command::UpdateStep { step_number: 255, temperature: 999999, time_minutes: 255 },
        Command::SkipToStep {
            step_number: 9,
            can_edit_minutes: 1,
            time_left_minutes: 59,
            time_left_seconds: 59,
            skip_ramp: false,
            disable_add_grain: true,
        },
        Command::InteractionComplete,
        Command::SkipToInteraction(InteractionCode::BoilFinished),
        Command::SetSpargeCounterActive(false),
        Command::SetBoilControlActive(true),
        Command::SetManualPowerControlActive(false),
        Command::SetSpargeAlertModeActive(true),
    ];
    for c in commands {
        assert_eq!(c.to_vec().len(), 19);
    }
}

#[test]
fn decode_temp_frame() {
    let r = Notification::decode(&frame("X68.00,66.50,")).unwrap();
    match r {
        Notification::Temp(t) => {
            assert_eq!(t.desired, 6800);
            assert_eq!(t.current, 6650);
        }
        other => panic!("expected a temperature report, got {:?}", other),
    }
    // The padding may start right after the last field, without a comma.
    let r = Notification::decode(&frame("X68.00,66.50")).unwrap();
    match r {
        Notification::Temp(t) => {
            assert_eq!(t.desired, 6800);
            assert_eq!(t.current, 6650);
        }
        other => panic!("expected a temperature report, got {:?}", other),
    }
}

#[test]
fn decode_field_free_frames() {
    assert!(matches!(
        Notification::decode(&frame("A")).unwrap(),
        Notification::PromptBoilAddition(_)
    ));
    assert!(matches!(
        Notification::decode(&frame("B")).unwrap(),
        Notification::PromptSpargeWater(_)
    ));
    assert!(matches!(
        Notification::decode(&frame("E")).unwrap(),
        Notification::TemperatureReached(_)
    ));
}

#[test]
fn decode_timer_frame_field_order() {
    // On the wire: active, remaining minutes, total start time, remaining
    // seconds.
    let r = Notification::decode(&frame("T1,2,60,30,")).unwrap();
    match r {
        Notification::Timer(t) => {
            assert!(t.active);
            assert_eq!(t.remaining_minutes, 2);
            assert_eq!(t.total_start_time, 60);
            assert_eq!(t.remaining_seconds, 30);
        }
        other => panic!("expected a timer report, got {:?}", other),
    }
}

#[test]
fn decode_status_frames() {
    let r = Notification::decode(&frame("Y1,0,1,0,0,C,4,1,")).unwrap();
    match r {
        Notification::Status1(s) => {
            assert!(s.heat_active);
            assert!(!s.pump_active);
            assert!(s.auto_mode_active);
            assert!(!s.step_ramp_active);
            assert!(!s.interaction_mode_active);
            assert!(matches!(s.interaction_code, InteractionCode::Dismiss));
            assert_eq!(s.step_number, 4);
            assert!(s.delayed_heat_mode_active);
        }
        other => panic!("expected a first status report, got {:?}", other),
    }
    let r = Notification::decode(&frame("W75,1,0,0,1,0,")).unwrap();
    match r {
        Notification::Status2(s) => {
            assert_eq!(s.heat_power_output_percentage, 75);
            assert!(s.timer_paused);
            assert!(!s.step_mash_mode);
            assert!(!s.recipe_interrupted);
            assert!(s.manual_power_mode);
            assert!(!s.sparge_water_alert_displayed);
        }
        other => panic!("expected a second status report, got {:?}", other),
    }
}

#[test]
fn decode_interaction_boil_firmware_voltage() {
    match Notification::decode(&frame("IC,")).unwrap() {
        Notification::Interaction(i) => {
            assert!(matches!(i.interaction_code, InteractionCode::Dismiss))
        }
        other => panic!("expected an interaction, got {:?}", other),
    }
    match Notification::decode(&frame("C98.5,")).unwrap() {
        Notification::Boil(b) => assert_eq!(b.boil_temperature, 9850),
        other => panic!("expected a boil report, got {:?}", other),
    }
    match Notification::decode(&frame("Fv1.2.3,")).unwrap() {
        Notification::FirmwareVersion(f) => assert_eq!(f.firmware_version, "v1.2.3"),
        other => panic!("expected a firmware version, got {:?}", other),
    }
    match Notification::decode(&frame("V1,1,")).unwrap() {
        Notification::VoltageAndUnits(v) => {
            assert_eq!(v.voltage, Voltage::V110);
            assert_eq!(v.units, Units::Celsius);
        }
        other => panic!("expected voltage and units, got {:?}", other),
    }
    // Inverted polarity: zero means 230 volts and fahrenheit.
    match Notification::decode(&frame("V0,0,")).unwrap() {
        Notification::VoltageAndUnits(v) => {
            assert_eq!(v.voltage, Voltage::V230);
            assert_eq!(v.units, Units::Fahrenheit);
        }
        other => panic!("expected voltage and units, got {:?}", other),
    }
}

#[test]
fn decode_unknown_tag_keeps_payload() {
    match Notification::decode(b"Zhello,world     ").unwrap() {
        Notification::Other(o) => {
            assert_eq!(o.tag, 'Z');
            assert_eq!(o.data, "hello,world     ");
        }
        other => panic!("expected an unrecognised frame, got {:?}", other),
    }
}

#[test]
fn decode_errors() {
    // Not UTF-8.
    let mut bad = frame("X68.00,66.50,");
    bad[3] = 0xFF;
    assert_eq!(
        Notification::decode(&bad).unwrap_err(),
        NotificationConvertError::InvalidUtf8
    );
    // A numeric field that does not parse.
    assert_eq!(
        Notification::decode(&frame("Xhot,66.50,")).unwrap_err(),
        NotificationConvertError::InvalidField
    );
    // A missing field.
    assert_eq!(
        Notification::decode(&frame("T1,2,")).unwrap_err(),
        NotificationConvertError::InvalidField
    );
    // An empty frame.
    assert_eq!(
        Notification::decode(b"").unwrap_err(),
        NotificationConvertError::InvalidField
    );
    // A numeric field out of range for its width.
    assert_eq!(
        Notification::decode(&frame("W256,0,0,0,0,0,")).unwrap_err(),
        NotificationConvertError::InvalidField
    );
}

#[test]
fn decode_numeric_edges() {
    // A dot with no fractional digits is a whole number.
    match Notification::decode(&frame("X68.,66,")).unwrap() {
        Notification::Temp(t) => {
            assert_eq!(t.desired, 6800);
            assert_eq!(t.current, 6600);
        }
        other => panic!("expected a temperature report, got {:?}", other),
    }
    // Fractional digits beyond the second are truncated away.
    match Notification::decode(&frame("X68.129,66.001,")).unwrap() {
        Notification::Temp(t) => {
            assert_eq!(t.desired, 6812);
            assert_eq!(t.current, 6600);
        }
        other => panic!("expected a temperature report, got {:?}", other),
    }
    // A negative temperature carries its sign.
    match Notification::decode(&frame("X-1.50,0.25,")).unwrap() {
        Notification::Temp(t) => {
            assert_eq!(t.desired, -150);
            assert_eq!(t.current, 25);
        }
        other => panic!("expected a temperature report, got {:?}", other),
    }
    // No integer digits before the dot is malformed.
    assert_eq!(
        Notification::decode(&frame("X.5,1,")).unwrap_err(),
        NotificationConvertError::InvalidField
    );
    // A timer field too large for its width is malformed.
    assert_eq!(
        Notification::decode(&frame("T1,4294967296,1,1")).unwrap_err(),
        NotificationConvertError::InvalidField
    );
    // Leading zeros are ordinary digits.
    match Notification::decode(&frame("T1,002,060,030,")).unwrap() {
        Notification::Timer(t) => {
            assert_eq!(t.remaining_minutes, 2);
            assert_eq!(t.total_start_time, 60);
            assert_eq!(t.remaining_seconds, 30);
        }
        other => panic!("expected a timer report, got {:?}", other),
    }
}

#[test]
fn interaction_code_round_trip() {
    let codes = vec![
        InteractionCode::Dismiss,
        InteractionCode::NoPrompt,
        InteractionCode::SkipDelayedRecipe,
        InteractionCode::AddGrain,
        InteractionCode::MashOutDoneStartSparge,
        InteractionCode::Sparge,
        InteractionCode::BoilReached,
        InteractionCode::BoilFinished,
        InteractionCode::Other("Z".to_string()),
    ];
    for code in codes {
        let text = code.to_string();
        let back = InteractionCode::from_str(&text);
        assert_eq!(back, code);
    }
    // The known texts map to the named codes, never to a kept-verbatim one.
    assert_eq!(InteractionCode::from_str("C"), InteractionCode::Dismiss);
    assert_eq!(InteractionCode::from_str("0"), InteractionCode::NoPrompt);
    assert_eq!(InteractionCode::from_str("6"), InteractionCode::BoilFinished);
    assert_eq!(
        InteractionCode::from_str("yes"),
        InteractionCode::Other("yes".to_string())
    );
}
