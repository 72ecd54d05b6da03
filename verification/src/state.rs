//! The device-state tracker.
//!
//! One tracker instance lives for one connected controller.  It folds
//! incoming notifications into a continuously updated snapshot and derives
//! two synthetic alert states: whether the boil-addition prompt and the
//! heat-sparge-water prompt are visible.  The controller does not
//! re-announce prompts on each status tick, so every first status report
//! re-emits both alert states as a refresh; a dismissal clears the boil
//! alert first, and only one alert per dismissal.

use crate::command::Command;
use crate::interaction::{CodeV, InteractionCode};
use crate::notification::{NotifV, Notification, Status1, Status2};
use crate::{Centi, StepNumber};
use vstd::prelude::*;

verus! {

/// Whether the boil-addition prompt is visible.
#[derive(Debug, Clone, Copy, PartialEq, Eq, Structural)]
pub struct BoilAlertState {
    pub visible: bool,
}

/// Whether the heat-sparge-water prompt is visible.
#[derive(Debug, Clone, Copy, PartialEq, Eq, Structural)]
pub struct HeatSpargeWaterAlertState {
    pub visible: bool,
}

/// A synthetic notification derived by the tracker, as opposed to one
/// received on the wire.
#[derive(Debug, Clone, Copy, PartialEq, Eq, Structural)]
pub enum ManagerNotification {
    BoilAlertState(BoilAlertState),
    HeatSpargeWaterAlertState(HeatSpargeWaterAlertState),
}

/// The tracked snapshot of one connected controller.  It mirrors the most
/// recent status, temperature and timer reports, plus the two derived
/// alert states.
#[derive(Debug, Clone)]
pub struct DeviceState {
    pub heat_active: bool,
    pub pump_active: bool,
    pub auto_mode_active: bool,
    pub step_ramp_active: bool,
    pub interaction_mode_active: bool,
    pub interaction_code: InteractionCode,
    pub step_number: StepNumber,
    pub delayed_heat_mode_active: bool,
    pub heat_power_output_percentage: u8,
    pub timer_paused: bool,
    pub step_mash_mode: bool,
    pub recipe_interrupted: bool,
    pub manual_power_mode: bool,
    pub sparge_water_alert_displayed: bool,
    /// The last desired temperature, in hundredths of a degree celsius.
    pub temp_desired: Centi,
    /// The last measured temperature, in hundredths of a degree celsius.
    pub temp_current: Centi,
    pub timer_active: bool,
    /// Derived: the boil-addition prompt is visible.
    pub boil_alert_active: bool,
    /// Derived: the heat-sparge-water prompt is visible.
    pub sparge_water_alert_active: bool,
}

/// The mathematical value of a tracked snapshot.
pub ghost struct StateV {
    pub heat_active: bool,
    pub pump_active: bool,
    pub auto_mode_active: bool,
    pub step_ramp_active: bool,
    pub interaction_mode_active: bool,
    pub interaction_code: CodeV,
    pub step_number: int,
    pub delayed_heat_mode_active: bool,
    pub heat_power_output_percentage: int,
    pub timer_paused: bool,
    pub step_mash_mode: bool,
    pub recipe_interrupted: bool,
    pub manual_power_mode: bool,
    pub sparge_water_alert_displayed: bool,
    pub temp_desired: int,
    pub temp_current: int,
    pub timer_active: bool,
    pub boil_alert_active: bool,
    pub sparge_water_alert_active: bool,
}

impl View for DeviceState {
    type V = StateV;

    open spec fn view(&self) -> StateV {
        StateV {
            heat_active: self.heat_active,
            pump_active: self.pump_active,
            auto_mode_active: self.auto_mode_active,
            step_ramp_active: self.step_ramp_active,
            interaction_mode_active: self.interaction_mode_active,
            interaction_code: self.interaction_code@,
            step_number: self.step_number as int,
            delayed_heat_mode_active: self.delayed_heat_mode_active,
            heat_power_output_percentage: self.heat_power_output_percentage as int,
            timer_paused: self.timer_paused,
            step_mash_mode: self.step_mash_mode,
            recipe_interrupted: self.recipe_interrupted,
            manual_power_mode: self.manual_power_mode,
            sparge_water_alert_displayed: self.sparge_water_alert_displayed,
            temp_desired: self.temp_desired as int,
            temp_current: self.temp_current as int,
            timer_active: self.timer_active,
            boil_alert_active: self.boil_alert_active,
            sparge_water_alert_active: self.sparge_water_alert_active,
        }
    }
}

/// The snapshot of a freshly connected controller: everything off, zero or
/// empty.
pub open spec fn initial_state() -> StateV {
    StateV {
        heat_active: false,
        pump_active: false,
        auto_mode_active: false,
        step_ramp_active: false,
        interaction_mode_active: false,
        interaction_code: CodeV::NoPrompt,
        step_number: 0,
        delayed_heat_mode_active: false,
        heat_power_output_percentage: 0,
        timer_paused: false,
        step_mash_mode: false,
        recipe_interrupted: false,
        manual_power_mode: false,
        sparge_water_alert_displayed: false,
        temp_desired: 0,
        temp_current: 0,
        timer_active: false,
        boil_alert_active: false,
        sparge_water_alert_active: false,
    }
}

/// The boil-alert event carrying `visible`.
pub open spec fn boil_event(visible: bool) -> ManagerNotification {
    ManagerNotification::BoilAlertState(BoilAlertState { visible })
}

/// The sparge-alert event carrying `visible`.
pub open spec fn sparge_event(visible: bool) -> ManagerNotification {
    ManagerNotification::HeatSpargeWaterAlertState(HeatSpargeWaterAlertState { visible })
}

/// The snapshot after one notification: status reports overwrite their
/// fields, a temperature report stores both values, a timer report stores
/// only whether the timer runs, the two prompts raise their alert, and a
/// dismissal clears the boil alert or, failing that, the sparge alert.
/// Every other notification leaves the snapshot unchanged.
pub open spec fn step_state(s: StateV, n: NotifV) -> StateV {
    match n {
        NotifV::Status1 {
            heat_active,
            pump_active,
            auto_mode_active,
            step_ramp_active,
            interaction_mode_active,
            interaction_code,
            step_number,
            delayed_heat_mode_active,
        } => StateV {
            heat_active,
            pump_active,
            auto_mode_active,
            step_ramp_active,
            interaction_mode_active,
            interaction_code,
            step_number,
            delayed_heat_mode_active,
            ..s
        },
        NotifV::Status2 {
            heat_power_output_percentage,
            timer_paused,
            step_mash_mode,
            recipe_interrupted,
            manual_power_mode,
            sparge_water_alert_displayed,
        } => StateV {
            heat_power_output_percentage,
            timer_paused,
            step_mash_mode,
            recipe_interrupted,
            manual_power_mode,
            sparge_water_alert_displayed,
            ..s
        },
        NotifV::Temp { desired, current } => StateV {
            temp_desired: desired,
            temp_current: current,
            ..s
        },
        NotifV::Timer { active, .. } => StateV { timer_active: active, ..s },
        NotifV::PromptBoilAddition => StateV { boil_alert_active: true, ..s },
        NotifV::PromptSpargeWater => StateV { sparge_water_alert_active: true, ..s },
        NotifV::Interaction { interaction_code } => if interaction_code == CodeV::Dismiss {
            if s.boil_alert_active {
                StateV { boil_alert_active: false, ..s }
            } else if s.sparge_water_alert_active {
                StateV { sparge_water_alert_active: false, ..s }
            } else {
                s
            }
        } else {
            s
        },
        _ => s,
    }
}

/// The synthetic events one notification emits: each first status report
/// re-emits both alert states as a refresh, each prompt announces its
/// alert, and a dismissal announces the one alert it clears.
pub open spec fn step_events(s: StateV, n: NotifV) -> Seq<ManagerNotification> {
    match n {
        NotifV::Status1 { .. } => seq![
            boil_event(s.boil_alert_active),
            sparge_event(s.sparge_water_alert_active),
        ],
        NotifV::PromptBoilAddition => seq![boil_event(true)],
        NotifV::PromptSpargeWater => seq![sparge_event(true)],
        NotifV::Interaction { interaction_code } => if interaction_code == CodeV::Dismiss {
            if s.boil_alert_active {
                seq![boil_event(false)]
            } else if s.sparge_water_alert_active {
                seq![sparge_event(false)]
            } else {
                Seq::empty()
            }
        } else {
            Seq::empty()
        },
        _ => Seq::empty(),
    }
}

/// Whether an outgoing command may dismiss a visible prompt: pressing Set
/// or dismissing the boil-addition alert.
pub open spec fn command_dismisses(c: &Command) -> bool {
    ||| c matches Command::PressSet
    ||| c matches Command::DismissBoilAdditionAlert
}

/// The snapshot after an outgoing command: a dismissing command clears the
/// boil alert or, failing that, the sparge alert, speculatively, before
/// the controller confirms.  Other commands change nothing.
pub open spec fn command_state(s: StateV, c: &Command) -> StateV {
    if command_dismisses(c) {
        if s.boil_alert_active {
            StateV { boil_alert_active: false, ..s }
        } else if s.sparge_water_alert_active {
            StateV { sparge_water_alert_active: false, ..s }
        } else {
            s
        }
    } else {
        s
    }
}

/// The synthetic event an outgoing command emits: the one alert it
/// clears, if any.
pub open spec fn command_event(s: StateV, c: &Command) -> Option<ManagerNotification> {
    if command_dismisses(c) {
        if s.boil_alert_active {
            Some(boil_event(false))
        } else if s.sparge_water_alert_active {
            Some(sparge_event(false))
        } else {
            None
        }
    } else {
        None
    }
}

impl DeviceState {
    /// The snapshot for a freshly connected controller.
    pub fn new() -> (r: Self)
        ensures
            r@ == initial_state(),
    {
        DeviceState {
            heat_active: false,
            pump_active: false,
            auto_mode_active: false,
            step_ramp_active: false,
            interaction_mode_active: false,
            interaction_code: InteractionCode::NoPrompt,
            step_number: 0,
            delayed_heat_mode_active: false,
            heat_power_output_percentage: 0,
            timer_paused: false,
            step_mash_mode: false,
            recipe_interrupted: false,
            manual_power_mode: false,
            sparge_water_alert_displayed: false,
            temp_desired: 0,
            temp_current: 0,
            timer_active: false,
            boil_alert_active: false,
            sparge_water_alert_active: false,
        }
    }

    /// Overwrites the fields of the first status report and returns both
    /// alert states as a refresh, in boil-then-sparge order.
    fn apply_status1(&mut self, p: &Status1) -> (events: Vec<ManagerNotification>)
        ensures
            final(self)@ == (StateV {
                heat_active: p.heat_active,
                pump_active: p.pump_active,
                auto_mode_active: p.auto_mode_active,
                step_ramp_active: p.step_ramp_active,
                interaction_mode_active: p.interaction_mode_active,
                interaction_code: p.interaction_code@,
                step_number: p.step_number as int,
                delayed_heat_mode_active: p.delayed_heat_mode_active,
                ..old(self)@
            }),
            events@ == seq![
                boil_event(old(self)@.boil_alert_active),
                sparge_event(old(self)@.sparge_water_alert_active),
            ],
    {
        let mut events: Vec<ManagerNotification> = Vec::new();
        events.push(
            ManagerNotification::BoilAlertState(BoilAlertState { visible: self.boil_alert_active }),
        );
        events.push(
            ManagerNotification::HeatSpargeWaterAlertState(
                HeatSpargeWaterAlertState { visible: self.sparge_water_alert_active },
            ),
        );
        self.heat_active = p.heat_active;
        self.pump_active = p.pump_active;
        self.auto_mode_active = p.auto_mode_active;
        self.step_ramp_active = p.step_ramp_active;
        self.interaction_mode_active = p.interaction_mode_active;
        self.interaction_code = p.interaction_code.clone();
        self.step_number = p.step_number;
        self.delayed_heat_mode_active = p.delayed_heat_mode_active;
        proof {
            assert(events@ =~= seq![
                boil_event(old(self)@.boil_alert_active),
                sparge_event(old(self)@.sparge_water_alert_active),
            ]);
        }
        events
    }

    /// Overwrites the fields of the second status report.
    fn apply_status2(&mut self, p: &Status2)
        ensures
            final(self)@ == (StateV {
                heat_power_output_percentage: p.heat_power_output_percentage as int,
                timer_paused: p.timer_paused,
                step_mash_mode: p.step_mash_mode,
                recipe_interrupted: p.recipe_interrupted,
                manual_power_mode: p.manual_power_mode,
                sparge_water_alert_displayed: p.sparge_water_alert_displayed,
                ..old(self)@
            }),
    {
        self.heat_power_output_percentage = p.heat_power_output_percentage;
        self.timer_paused = p.timer_paused;
        self.step_mash_mode = p.step_mash_mode;
        self.recipe_interrupted = p.recipe_interrupted;
        self.manual_power_mode = p.manual_power_mode;
        self.sparge_water_alert_displayed = p.sparge_water_alert_displayed;
    }

    /// Clears the boil alert or, failing that, the sparge alert, and
    /// returns the event for whichever was cleared.
    fn dismiss_one_alert(&mut self) -> (event: Option<ManagerNotification>)
        ensures
            final(self)@ == (if old(self)@.boil_alert_active {
                StateV { boil_alert_active: false, ..old(self)@ }
            } else if old(self)@.sparge_water_alert_active {
                StateV { sparge_water_alert_active: false, ..old(self)@ }
            } else {
                old(self)@
            }),
            event == (if old(self)@.boil_alert_active {
                Some(boil_event(false))
            } else if old(self)@.sparge_water_alert_active {
                Some(sparge_event(false))
            } else {
                None::<ManagerNotification>
            }),
    {
        if self.boil_alert_active {
            self.boil_alert_active = false;
            Some(ManagerNotification::BoilAlertState(BoilAlertState { visible: false }))
        } else if self.sparge_water_alert_active {
            self.sparge_water_alert_active = false;
            Some(
                ManagerNotification::HeatSpargeWaterAlertState(
                    HeatSpargeWaterAlertState { visible: false },
                ),
            )
        } else {
            None
        }
    }

    /// The synthetic events `notification` would produce against the
    /// current snapshot, in emission order.
    fn events_for(&self, notification: &Notification) -> (events: Vec<ManagerNotification>)
        ensures
            events@ == step_events(self@, notification@),
    {
        let mut events: Vec<ManagerNotification> = Vec::new();
        match notification {
            Notification::Status1(_) => {
                events.push(
                    ManagerNotification::BoilAlertState(
                        BoilAlertState { visible: self.boil_alert_active },
                    ),
                );
                events.push(
                    ManagerNotification::HeatSpargeWaterAlertState(
                        HeatSpargeWaterAlertState { visible: self.sparge_water_alert_active },
                    ),
                );
            },
            Notification::PromptBoilAddition(_) => {
                events.push(
                    ManagerNotification::BoilAlertState(BoilAlertState { visible: true }),
                );
            },
            Notification::PromptSpargeWater(_) => {
                events.push(
                    ManagerNotification::HeatSpargeWaterAlertState(
                        HeatSpargeWaterAlertState { visible: true },
                    ),
                );
            },
            Notification::Interaction(p) => {
                let dismiss = match &p.interaction_code {
                    InteractionCode::Dismiss => true,
                    _ => false,
                };
                if dismiss {
                    if self.boil_alert_active {
                        events.push(
                            ManagerNotification::BoilAlertState(
                                BoilAlertState { visible: false },
                            ),
                        );
                    } else if self.sparge_water_alert_active {
                        events.push(
                            ManagerNotification::HeatSpargeWaterAlertState(
                                HeatSpargeWaterAlertState { visible: false },
                            ),
                        );
                    }
                }
            },
            _ => {},
        }
        proof {
            assert(events@ =~= step_events(self@, notification@));
        }
        events
    }

    /// Overwrites the snapshot fields `notification` carries.
    #[verifier::rlimit(100)]
    fn step_fields(&mut self, notification: &Notification)
        ensures
            final(self)@ == step_state(old(self)@, notification@),
    {
        match notification {
            Notification::Status1(p) => {
                let _ = self.apply_status1(p);
                proof {
                    assert(self@ == step_state(old(self)@, notification@));
                }
            },
            Notification::Status2(p) => {
                self.apply_status2(p);
                proof {
                    assert(self@ == step_state(old(self)@, notification@));
                }
            },
            Notification::Temp(p) => {
                self.temp_desired = p.desired;
                self.temp_current = p.current;
                proof {
                    assert(self@ == step_state(old(self)@, notification@));
                }
            },
            Notification::Timer(p) => {
                self.timer_active = p.active;
                proof {
                    assert(self@ == step_state(old(self)@, notification@));
                }
            },
            Notification::PromptBoilAddition(_) => {
                self.boil_alert_active = true;
                proof {
                    assert(self@ == step_state(old(self)@, notification@));
                }
            },
            Notification::PromptSpargeWater(_) => {
                self.sparge_water_alert_active = true;
                proof {
                    assert(self@ == step_state(old(self)@, notification@));
                }
            },
            Notification::Interaction(p) => {
                let dismiss = match &p.interaction_code {
                    InteractionCode::Dismiss => true,
                    _ => false,
                };
                if dismiss {
                    let _ = self.dismiss_one_alert();
                }
                proof {
                    assert(self@ == step_state(old(self)@, notification@));
                }
            },
            _ => {
                proof {
                    assert(self@ == step_state(old(self)@, notification@));
                }
            },
        }
    }

    /// Folds one notification into the snapshot and returns the synthetic
    /// events it produces, in emission order.
    pub fn handle_notification(&mut self, notification: &Notification) -> (events: Vec<
        ManagerNotification,
    >)
        ensures
            final(self)@ == step_state(old(self)@, notification@),
            events@ == step_events(old(self)@, notification@),
    {
        let events = self.events_for(notification);
        self.step_fields(notification);
        events
    }

    /// Applies the dismissing effect of an outgoing command, before it is
    /// sent: the controller does not always echo a confirmation for this
    /// path.  Returns the event for the one alert cleared, if any.
    pub fn handle_command(&mut self, command: &Command) -> (event: Option<ManagerNotification>)
        ensures
            final(self)@ == command_state(old(self)@, command),
            event == command_event(old(self)@, command),
    {
        let dismiss = match command {
            Command::PressSet => true,
            Command::DismissBoilAdditionAlert => true,
            _ => false,
        };
        if dismiss {
            if self.boil_alert_active {
                self.boil_alert_active = false;
                Some(ManagerNotification::BoilAlertState(BoilAlertState { visible: false }))
            } else if self.sparge_water_alert_active {
                self.sparge_water_alert_active = false;
                Some(
                    ManagerNotification::HeatSpargeWaterAlertState(
                        HeatSpargeWaterAlertState { visible: false },
                    ),
                )
            } else {
                None
            }
        } else {
            None
        }
    }
}

/// A status refresh never changes the derived alert states: the events it
/// re-emits carry the same visibility the snapshot already holds, so a
/// refresh between a prompt and its dismissal cannot flip either alert.
pub proof fn lemma_status_refresh_preserves_alerts(s: StateV, n: NotifV)
    requires
        n matches NotifV::Status1 { .. },
    ensures
        step_state(s, n).boil_alert_active == s.boil_alert_active,
        step_state(s, n).sparge_water_alert_active == s.sparge_water_alert_active,
        step_events(s, n) == seq![
            boil_event(s.boil_alert_active),
            sparge_event(s.sparge_water_alert_active),
        ],
{
}

/// The alert lifecycle: a boil prompt raises the boil alert and announces
/// it visible; any number of status refreshes later it is still raised;
/// and a dismissal clears exactly it, announcing it hidden, leaving the
/// sparge alert as it was.
pub proof fn lemma_boil_alert_lifecycle(s: StateV, refresh: NotifV)
    requires
        refresh matches NotifV::Status1 { .. },
    ensures
        ({
            let raised = step_state(s, NotifV::PromptBoilAddition);
            let refreshed = step_state(raised, refresh);
            let dismissed = step_state(
                refreshed,
                NotifV::Interaction { interaction_code: CodeV::Dismiss },
            );
            &&& step_events(s, NotifV::PromptBoilAddition) == seq![boil_event(true)]
            &&& raised.boil_alert_active
            &&& refreshed.boil_alert_active
            &&& step_events(
                refreshed,
                NotifV::Interaction { interaction_code: CodeV::Dismiss },
            ) == seq![boil_event(false)]
            &&& !dismissed.boil_alert_active
            &&& dismissed.sparge_water_alert_active == s.sparge_water_alert_active
        }),
{
}

} // verus!
