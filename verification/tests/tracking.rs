//! Reassembly, recipe expansion, and the device-state tracker.

use brew_monitor::command::Command;
use brew_monitor::notification::Notification;
use brew_monitor::reassembly::ReassemblyBuffer;
use brew_monitor::recipe::{MashStep, Recipe, RecipeDelay};
use brew_monitor::state::{DeviceState, ManagerNotification};

fn frame(prefix: &str) -> Vec<u8> {
    let mut v = prefix.as_bytes().to_vec();
    while v.len() < 17 {
        v.push(b' ');
    }
    v
}

#[test]
fn reassembly_across_chunk_boundary() {
    // Two frames, split at byte 10: the first call holds the partial
    // frame, the second completes both.
    let mut bytes = frame("X68.00,66.50,");
    bytes.extend_from_slice(&frame("A"));
    assert_eq!(bytes.len(), 34);

    let mut buffer = ReassemblyBuffer::new();
    let first = buffer.feed(&bytes[..10]);
    assert_eq!(first.len(), 0);
    let second = buffer.feed(&bytes[10..]);
    assert_eq!(second.len(), 2);
    match second[0].as_ref().unwrap() {
        Notification::Temp(t) => {
            assert_eq!(t.desired, 6800);
            assert_eq!(t.current, 6650);
        }
        other => panic!("expected a temperature report, got {:?}", other),
    }
    assert!(matches!(
        second[1].as_ref().unwrap(),
        Notification::PromptBoilAddition(_)
    ));

    // Feeding the concatenation to a fresh buffer decodes the same two
    // frames in one call: nothing is lost or duplicated at the boundary.
    let mut whole = ReassemblyBuffer::new();
    let all = whole.feed(&bytes);
    assert_eq!(all.len(), 2);
    assert!(matches!(all[0].as_ref().unwrap(), Notification::Temp(_)));
    assert!(matches!(
        all[1].as_ref().unwrap(),
        Notification::PromptBoilAddition(_)
    ));
}

#[test]
fn reassembly_same_aligned_input_twice() {
    let mut bytes = frame("E");
    bytes.extend_from_slice(&frame("B"));
    let mut buffer = ReassemblyBuffer::new();
    let first = buffer.feed(&bytes);
    let second = buffer.feed(&bytes);
    assert_eq!(first.len(), 2);
    assert_eq!(second.len(), 2);
    assert!(matches!(
        first[0].as_ref().unwrap(),
        Notification::TemperatureReached(_)
    ));
    assert!(matches!(
        second[0].as_ref().unwrap(),
        Notification::TemperatureReached(_)
    ));
}

fn expect_19(buffers: &[Vec<u8>]) {
    for b in buffers {
        assert_eq!(b.len(), 19);
    }
}

fn text(buffer: &[u8]) -> String {
    String::from_utf8(buffer.to_vec()).unwrap()
}

#[test]
fn default_recipe_with_one_mash_step_expands_to_six_buffers() {
    let mut recipe = Recipe::default();
    recipe.mash_steps.push(MashStep { temperature: 65, minutes: 60 });
    let buffers = recipe.to_commands();
    assert_eq!(buffers.len(), 6);
    expect_19(&buffers);
    assert_eq!(text(&buffers[0]).trim_end(), "E99.5,");
    assert_eq!(text(&buffers[1]).trim_end(), "R60,1,13.25,14.64,");
    assert_eq!(text(&buffers[2]).trim_end(), "0,1,1,0,0,");
    assert_eq!(text(&buffers[3]).trim_end(), "");
    assert_eq!(text(&buffers[4]).trim_end(), "0,0,0,0,");
    assert_eq!(text(&buffers[5]).trim_end(), "65:60,");
}

#[test]
fn full_recipe_expansion_order() {
    let mut recipe = Recipe::default();
    recipe.name = "Pale Ale".to_string();
    recipe.boil_steps.push(60);
    recipe.boil_steps.push(15);
    recipe.strike_temp_mode = true;
    recipe.delay = RecipeDelay::MinutesSeconds(90, 30);
    recipe.hop_stand_time = 10;
    recipe.mash_steps.push(MashStep { temperature: 65, minutes: 60 });
    recipe.mash_steps.push(MashStep { temperature: 75, minutes: 10 });
    let buffers = recipe.to_commands();
    expect_19(&buffers);
    let texts: Vec<String> = buffers.iter().map(|b| text(b).trim_end().to_string()).collect();
    assert_eq!(
        texts,
        vec![
            "E99.5,",
            "R60,2,13.25,14.64,",
            "0,1,1,1,0,",
            "Pale Ale",
            "10,2,0,1,",
            "60,",
            "15,",
            "0",
            "65:60,",
            "75:10,",
            "90,30,",
        ]
    );
}

fn boil_events(events: &[ManagerNotification]) -> Vec<bool> {
    events
        .iter()
        .filter_map(|e| match e {
            ManagerNotification::BoilAlertState(b) => Some(b.visible),
            _ => None,
        })
        .collect()
}

#[test]
fn boil_alert_raised_refreshed_and_dismissed() {
    let mut state = DeviceState::new();
    let mut alert_changes: Vec<bool> = Vec::new();
    let mut last = false;

    // Prompt, then a status refresh, then the dismissal.
    let sequence = vec![
        Notification::decode(&frame("A")).unwrap(),
        Notification::decode(&frame("Y1,0,1,0,0,0,4,0,")).unwrap(),
        Notification::decode(&frame("IC,")).unwrap(),
    ];
    for n in &sequence {
        for visible in boil_events(&state.handle_notification(n)) {
            if visible != last {
                alert_changes.push(visible);
                last = visible;
            }
        }
    }
    // Exactly two changes of the boil alert: visible, then hidden.  The
    // refresh in between re-emitted the same value without flipping it.
    assert_eq!(alert_changes, vec![true, false]);
}

#[test]
fn status_refresh_emits_both_alerts() {
    let mut state = DeviceState::new();
    let events = state.handle_notification(&Notification::decode(&frame("Y0,0,0,0,0,0,1,0,")).unwrap());
    assert_eq!(events.len(), 2);
    assert!(matches!(
        events[0],
        ManagerNotification::BoilAlertState(b) if !b.visible
    ));
    assert!(matches!(
        events[1],
        ManagerNotification::HeatSpargeWaterAlertState(s) if !s.visible
    ));
}

#[test]
fn dismissal_clears_boil_before_sparge() {
    let mut state = DeviceState::new();
    state.handle_notification(&Notification::decode(&frame("A")).unwrap());
    state.handle_notification(&Notification::decode(&frame("B")).unwrap());
    // One dismissal clears only the boil alert.
    let first = state.handle_notification(&Notification::decode(&frame("IC,")).unwrap());
    assert_eq!(first.len(), 1);
    assert!(matches!(
        first[0],
        ManagerNotification::BoilAlertState(b) if !b.visible
    ));
    assert!(state.sparge_water_alert_active);
    // The next dismissal clears the sparge alert.
    let second = state.handle_notification(&Notification::decode(&frame("IC,")).unwrap());
    assert_eq!(second.len(), 1);
    assert!(matches!(
        second[0],
        ManagerNotification::HeatSpargeWaterAlertState(s) if !s.visible
    ));
    // A third has nothing left to clear.
    let third = state.handle_notification(&Notification::decode(&frame("IC,")).unwrap());
    assert!(third.is_empty());
}

#[test]
fn outgoing_press_set_dismisses_speculatively() {
    let mut state = DeviceState::new();
    state.handle_notification(&Notification::decode(&frame("B")).unwrap());
    let event = state.handle_command(&Command::PressSet);
    assert!(matches!(
        event,
        Some(ManagerNotification::HeatSpargeWaterAlertState(s)) if !s.visible
    ));
    assert!(!state.sparge_water_alert_active);
    // A command that does not dismiss changes nothing.
    assert!(state.handle_command(&Command::GetFirmwareVersion).is_none());
}

#[test]
fn tracker_stores_status_and_temperature_fields() {
    let mut state = DeviceState::new();
    state.handle_notification(&Notification::decode(&frame("X68.00,66.50,")).unwrap());
    assert_eq!(state.temp_desired, 6800);
    assert_eq!(state.temp_current, 6650);
    state.handle_notification(&Notification::decode(&frame("T1,2,60,30,")).unwrap());
    assert!(state.timer_active);
    state.handle_notification(&Notification::decode(&frame("W75,1,0,0,1,0,")).unwrap());
    assert_eq!(state.heat_power_output_percentage, 75);
    assert!(state.timer_paused);
    state.handle_notification(&Notification::decode(&frame("Y1,1,0,0,0,2,7,0,")).unwrap());
    assert!(state.heat_active);
    assert!(state.pump_active);
    assert_eq!(state.step_number, 7);
}
