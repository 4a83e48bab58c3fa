//! Input classifier and per-tick event processing.
//!
//! Raw gamepad events are routed by the current configuration: axis
//! changes are shaped and stored into the movement vector when they belong
//! to the cursor-driving joystick, the aim button's analog value modulates
//! the sensitivity, and mapped button presses become click requests. All
//! pending events of a tick are drained before motion is evaluated once.

use vstd::prelude::*;
use vstd::math::abs;
use crate::SCALE;
use crate::config::{AccelerationProfile, AxisKind, ButtonAction, Config, GamepadButton, Joystick,
    mapping_lookup};
use crate::motion::{MAX_SENSITIVITY, MouseMovementInput, delta_matches, movement_control,
    tick_spec};
use crate::smoothing::{lemma_curve_range, shape_spec, smooth_profile};

verus! {

/// A per-tick classification error.
#[derive(Clone, Copy, Debug, PartialEq, Eq, Structural)]
pub enum ClassifyError {
    /// An axis-changed event arrived on an axis with no smoothing profile.
    NoAxisProfile,
}

/// Whether a click request presses or releases its button.
#[derive(Clone, Copy, Debug, PartialEq, Eq, Structural)]
pub enum ClickEdge {
    Press,
    Release,
}

/// A click addressed to the external injection collaborator.
#[derive(Clone, Copy, Debug, PartialEq, Eq, Structural)]
pub struct ClickRequest {
    pub action: ButtonAction,
    pub edge: ClickEdge,
}

/// One raw gamepad event, with analog values in fixed point.
#[derive(Clone, Copy, Debug, PartialEq, Eq, Structural)]
pub enum GamepadEvent {
    /// An axis moved to a new value in [-SCALE, SCALE].
    AxisChanged(AxisKind, i64),
    /// An analog button moved to a new value in [0, SCALE].
    ButtonChanged(GamepadButton, i64),
    /// A button went down; the second field is its raw code.
    ButtonPressed(GamepadButton, u32),
    /// A button came up; the second field is its raw code.
    ButtonReleased(GamepadButton, u32),
    /// Any other event kind; ignored.
    Other,
}

/// Well-formedness of one event's analog payload.
pub open spec fn event_wf(ev: GamepadEvent) -> bool {
    match ev {
        GamepadEvent::AxisChanged(_, v) => -SCALE <= v <= SCALE,
        GamepadEvent::ButtonChanged(_, v) => 0 <= v <= SCALE,
        _ => true,
    }
}

/// The smoothing profile that governs a physical axis, if any.
pub open spec fn axis_profile_spec(cfg: Config, axis: AxisKind) -> Option<AccelerationProfile> {
    match axis {
        AxisKind::LeftStickX | AxisKind::LeftStickY => Some(cfg.left_joystick_smoothing),
        AxisKind::RightStickX | AxisKind::RightStickY => Some(cfg.right_joystick_smoothing),
        AxisKind::LeftZ | AxisKind::RightZ => Some(cfg.zaxis_smoothing),
        _ => None,
    }
}

/// The smoothing profile that governs a button: the z-axis profile for the
/// aim button, linear for every other button.
pub open spec fn button_profile_spec(cfg: Config, btn: GamepadButton) -> AccelerationProfile {
    if btn == cfg.aim_button {
        cfg.zaxis_smoothing
    } else {
        AccelerationProfile::Linear
    }
}

/// The profile of the cursor-driving joystick.
pub open spec fn mouse_profile(cfg: Config) -> AccelerationProfile {
    match cfg.mouse_joystick {
        Joystick::Left => cfg.left_joystick_smoothing,
        Joystick::Right => cfg.right_joystick_smoothing,
    }
}

/// An event that aborts the tick's classification: an axis-changed event
/// on an axis with no profile.
pub open spec fn event_bad(cfg: Config, ev: GamepadEvent) -> bool {
    match ev {
        GamepadEvent::AxisChanged(axis, _) => axis_profile_spec(cfg, axis) is None,
        _ => false,
    }
}

/// The sensitivity modifier for a shaped aim value: an affine blend that
/// is 1 at rest and the aim factor `p` at full press, all fixed point:
/// (1 - p) (1 - shaped) + p == 1 - shaped + p shaped.
pub open spec fn aim_modifier(p: int, shaped: int) -> int {
    SCALE - shaped + (p * shaped) / (SCALE as int)
}

/// The sensitivity that an aim value of `shaped` selects.
pub open spec fn aim_sensitivity(base: int, p: int, shaped: int) -> int {
    (base * aim_modifier(p, shaped)) / (SCALE as int)
}

/// The movement state a classifier works on: horizontal and vertical
/// movement components and the current sensitivity factor.
pub open spec fn st_of(m: MouseMovementInput) -> (int, int, int) {
    (m.movement_vector[0] as int, m.movement_vector[1] as int, m.sensitivity_factor as int)
}

/// How one event changes the movement state. Events that the
/// configuration does not route anywhere leave the state unchanged.
pub open spec fn classify_step(cfg: Config, st: (int, int, int), ev: GamepadEvent) -> (
    int,
    int,
    int,
) {
    match ev {
        GamepadEvent::AxisChanged(axis, v) => match axis_profile_spec(cfg, axis) {
            Some(prof) => {
                let shaped = shape_spec(v as int, prof);
                if axis == cfg.mouse_joystick.x_axis_spec() {
                    (shaped, st.1, st.2)
                } else if axis == cfg.mouse_joystick.y_axis_spec() {
                    (st.0, shaped, st.2)
                } else {
                    st
                }
            },
            None => st,
        },
        GamepadEvent::ButtonChanged(btn, v) => {
            if btn == cfg.aim_button {
                let shaped = shape_spec(v as int, cfg.zaxis_smoothing);
                (
                    st.0,
                    st.1,
                    aim_sensitivity(
                        cfg.mouse_sensitivity as int,
                        cfg.aim_sensitivity_factor as int,
                        shaped,
                    ),
                )
            } else {
                st
            }
        },
        _ => st,
    }
}

/// The movement state after a sequence of events.
pub open spec fn events_fold(cfg: Config, st: (int, int, int), evs: Seq<GamepadEvent>) -> (
    int,
    int,
    int,
)
    decreases evs.len(),
{
    if evs.len() == 0 {
        st
    } else {
        classify_step(cfg, events_fold(cfg, st, evs.drop_last()), evs.last())
    }
}

/// Whether an action is one of the mouse click actions.
pub open spec fn is_mouse_action(a: ButtonAction) -> bool {
    a == ButtonAction::MouseLeft || a == ButtonAction::MouseRight || a == ButtonAction::MouseMiddle
}

/// The click request one event gives rise to, if any: a press or release
/// of a mapped code bound to a mouse action.
pub open spec fn click_of_event(cfg: Config, ev: GamepadEvent) -> Option<ClickRequest> {
    match ev {
        GamepadEvent::ButtonPressed(_, code) => match mapping_lookup(cfg.button_mapping@, code) {
            Some(action) => if is_mouse_action(action) {
                Some(ClickRequest { action, edge: ClickEdge::Press })
            } else {
                None
            },
            None => None,
        },
        GamepadEvent::ButtonReleased(_, code) => match mapping_lookup(cfg.button_mapping@, code) {
            Some(action) => if is_mouse_action(action) {
                Some(ClickRequest { action, edge: ClickEdge::Release })
            } else {
                None
            },
            None => None,
        },
        _ => None,
    }
}

/// All click requests of a sequence of events, in delivery order.
pub open spec fn clicks_of_events(cfg: Config, evs: Seq<GamepadEvent>) -> Seq<ClickRequest>
    decreases evs.len(),
{
    if evs.len() == 0 {
        Seq::empty()
    } else {
        match click_of_event(cfg, evs.last()) {
            Some(c) => clicks_of_events(cfg, evs.drop_last()).push(c),
            None => clicks_of_events(cfg, evs.drop_last()),
        }
    }
}

/// Aim modulation is an exact affine blend: at rest (aim value 0) the
/// sensitivity is the full base sensitivity, and at full press it is the
/// base scaled by the aim factor.
pub proof fn lemma_aim_modulation(base: int, p: int)
    ensures
        aim_sensitivity(base, p, 0) == base,
        aim_sensitivity(base, p, SCALE as int) == (base * p) / (SCALE as int),
{
    assert(p * 0 == 0) by (nonlinear_arith);
    assert(0int / 1000000int == 0);
    assert(aim_modifier(p, 0) == SCALE as int);
    assert(base * (SCALE as int) == (SCALE as int) * base) by (nonlinear_arith);
    vstd::arithmetic::div_mod::lemma_div_multiples_vanish(base, SCALE as int);
    assert(p * (SCALE as int) == (SCALE as int) * p) by (nonlinear_arith);
    vstd::arithmetic::div_mod::lemma_div_multiples_vanish(p, SCALE as int);
    assert(aim_modifier(p, SCALE as int) == p);
}

/// Unmapped button codes never produce a click request, whatever else the
/// event queue holds.
pub proof fn lemma_unmapped_codes_no_clicks(cfg: Config, evs: Seq<GamepadEvent>)
    requires
        forall|i: int|
            0 <= i < evs.len() ==> (match #[trigger] evs[i] {
                GamepadEvent::ButtonPressed(_, code) => mapping_lookup(
                    cfg.button_mapping@,
                    code,
                ) is None,
                GamepadEvent::ButtonReleased(_, code) => mapping_lookup(
                    cfg.button_mapping@,
                    code,
                ) is None,
                _ => true,
            }),
    ensures
        clicks_of_events(cfg, evs).len() == 0,
    decreases evs.len(),
{
    if evs.len() > 0 {
        assert forall|j: int| 0 <= j < evs.drop_last().len() implies (match #[trigger] evs.drop_last()[j] {
            GamepadEvent::ButtonPressed(_, code) => mapping_lookup(
                cfg.button_mapping@,
                code,
            ) is None,
            GamepadEvent::ButtonReleased(_, code) => mapping_lookup(
                cfg.button_mapping@,
                code,
            ) is None,
            _ => true,
        }) by {
            assert(evs.drop_last()[j] == evs[j]);
        }
        lemma_unmapped_codes_no_clicks(cfg, evs.drop_last());
        assert(evs.last() == evs[evs.len() - 1]);
        assert(click_of_event(cfg, evs.last()) is None);
    }
}

/// Whether an event is an axis change on the cursor-driving joystick's
/// horizontal axis.
pub open spec fn is_x_axis_event(cfg: Config, ev: GamepadEvent) -> bool {
    match ev {
        GamepadEvent::AxisChanged(axis, _) => axis == cfg.mouse_joystick.x_axis_spec(),
        _ => false,
    }
}

/// The analog value an axis event carries.
pub open spec fn event_axis_value(ev: GamepadEvent) -> int {
    match ev {
        GamepadEvent::AxisChanged(_, v) => v as int,
        GamepadEvent::ButtonChanged(_, v) => v as int,
        _ => 0,
    }
}

/// Within one tick the last value seen per axis wins: after draining, the
/// horizontal component is the shaped value of the last horizontal-axis
/// event, however many such events arrived.
pub proof fn lemma_last_axis_value_wins(
    cfg: Config,
    st: (int, int, int),
    evs: Seq<GamepadEvent>,
    k: int,
)
    requires
        0 <= k < evs.len(),
        is_x_axis_event(cfg, evs[k]),
        forall|j: int| k < j < evs.len() ==> !is_x_axis_event(cfg, #[trigger] evs[j]),
    ensures
        events_fold(cfg, st, evs).0 == shape_spec(event_axis_value(evs[k]), mouse_profile(cfg)),
    decreases evs.len(),
{
    assert(evs.last() == evs[evs.len() - 1]);
    if k == evs.len() - 1 {
        assert(axis_profile_spec(cfg, cfg.mouse_joystick.x_axis_spec()) == Some(mouse_profile(cfg)));
    } else {
        assert(evs.drop_last()[k] == evs[k]);
        lemma_last_axis_value_wins(cfg, st, evs.drop_last(), k);
    }
}

/// Consumes raw gamepad events and drives the mouse movement state.
pub struct GamepadHandler {
    pub config: Config,
    pub mouse_input: MouseMovementInput,
}

impl GamepadHandler {
    /// Invariant: the configuration is well formed, the movement state is
    /// well formed, and the deadzone is the configured one.
    pub open spec fn wf(&self) -> bool {
        &&& self.config.wf()
        &&& self.mouse_input.wf()
        &&& self.mouse_input.deadzone == self.config.joystick_deadzone
    }

    /// The movement state, for contracts and laws.
    pub open spec fn state(&self) -> (int, int, int) {
        st_of(self.mouse_input)
    }

    /// The configured deadzone.
    pub open spec fn deadzone(&self) -> int {
        self.mouse_input.deadzone as int
    }

    /// Builds a handler at rest: no movement, the configured base
    /// sensitivity and deadzone.
    pub fn new(config: Config) -> (h: GamepadHandler)
        requires
            config.wf(),
        ensures
            h.wf(),
            h.config == config,
            h.state() == (0int, 0int, config.mouse_sensitivity as int),
    {
        let mouse_input = MouseMovementInput {
            movement_vector: [0, 0],
            sensitivity_factor: config.mouse_sensitivity,
            deadzone: config.joystick_deadzone,
        };
        GamepadHandler { config, mouse_input }
    }

    /// The smoothing profile of a physical axis; axes outside the two
    /// sticks and the z pair have none.
    pub fn axis_profile(&self, axis: &AxisKind) -> (r: Result<AccelerationProfile, ClassifyError>)
        ensures
            match axis_profile_spec(self.config, *axis) {
                Some(p) => r == Ok::<AccelerationProfile, ClassifyError>(p),
                None => r == Err::<AccelerationProfile, ClassifyError>(
                    ClassifyError::NoAxisProfile,
                ),
            },
    {
        match axis {
            AxisKind::LeftStickX | AxisKind::LeftStickY => Ok(self.config.left_joystick_smoothing),
            AxisKind::RightStickX | AxisKind::RightStickY => Ok(
                self.config.right_joystick_smoothing,
            ),
            AxisKind::LeftZ | AxisKind::RightZ => Ok(self.config.zaxis_smoothing),
            _ => Err(ClassifyError::NoAxisProfile),
        }
    }

    /// The smoothing profile of a button: the z-axis profile for the aim
    /// button, linear otherwise. Never fails.
    pub fn button_profile(&self, btn: &GamepadButton) -> (r: Result<
        AccelerationProfile,
        ClassifyError,
    >)
        ensures
            r == Ok::<AccelerationProfile, ClassifyError>(button_profile_spec(self.config, *btn)),
    {
        let profile = if *btn == self.config.aim_button {
            self.config.zaxis_smoothing
        } else {
            AccelerationProfile::Linear
        };
        Ok(profile)
    }

    /// Shapes an axis value through the axis's profile.
    pub fn smooth_axis_event_value(&self, axis: &AxisKind, value: i64) -> (r: Result<
        i64,
        ClassifyError,
    >)
        requires
            -SCALE <= value <= SCALE,
        ensures
            match axis_profile_spec(self.config, *axis) {
                Some(p) => r == Ok::<i64, ClassifyError>(shape_spec(value as int, p) as i64),
                None => r == Err::<i64, ClassifyError>(ClassifyError::NoAxisProfile),
            },
            r is Ok ==> -SCALE <= r.unwrap() <= SCALE,
    {
        let profile = self.axis_profile(axis)?;
        Ok(smooth_profile(value, &profile))
    }

    /// Shapes a button value through the button's profile. Never fails.
    pub fn smooth_button_event_value(&self, btn: &GamepadButton, value: i64) -> (r: Result<
        i64,
        ClassifyError,
    >)
        requires
            -SCALE <= value <= SCALE,
        ensures
            r == Ok::<i64, ClassifyError>(
                shape_spec(value as int, button_profile_spec(self.config, *btn)) as i64,
            ),
            -SCALE <= r.unwrap() <= SCALE,
    {
        let profile = self.button_profile(btn)?;
        Ok(smooth_profile(value, &profile))
    }

    /// Resolves a bound action: mouse actions become click requests,
    /// anything else is ignored.
    pub fn handle_button(&self, action: &ButtonAction, edge: ClickEdge) -> (r: Option<
        ClickRequest,
    >)
        ensures
            r == if is_mouse_action(*action) {
                Some(ClickRequest { action: *action, edge })
            } else {
                None::<ClickRequest>
            },
    {
        match action {
            ButtonAction::MouseLeft | ButtonAction::MouseRight | ButtonAction::MouseMiddle => Some(
                ClickRequest { action: *action, edge },
            ),
            _ => None,
        }
    }

    /// The sensitivity selected by a shaped aim value.
    fn aim_sensitivity_value(&self, shaped: i64) -> (r: i64)
        requires
            self.config.wf(),
            0 <= shaped <= SCALE,
        ensures
            r == aim_sensitivity(
                self.config.mouse_sensitivity as int,
                self.config.aim_sensitivity_factor as int,
                shaped as int,
            ),
            0 <= r <= MAX_SENSITIVITY,
    {
        let p = self.config.aim_sensitivity_factor;
        let base = self.config.mouse_sensitivity;
        assert(p * shaped <= 99000000000000 && 0 <= p * shaped) by (nonlinear_arith)
            requires
                0 <= p <= 99000000,
                0 <= shaped <= 1000000,
        ;
        let scaled = ((p as u64 * shaped as u64) / (SCALE as u64)) as i64;
        proof {
            vstd::arithmetic::div_mod::lemma_div_is_ordered(
                p as int * shaped as int,
                99000000000000,
                SCALE as int,
            );
            assert(99000000000000int / 1000000int == 99000000);
            vstd::arithmetic::div_mod::lemma_div_pos_is_pos(p as int * shaped as int, SCALE as int);
        }
        let modifier = SCALE - shaped + scaled;
        assert(base * modifier <= 1000000000000000000 && 0 <= base * modifier) by (nonlinear_arith)
            requires
                0 < base <= 10000000000,
                0 <= modifier <= 100000000,
        ;
        let r = ((base as u64 * modifier as u64) / (SCALE as u64)) as i64;
        proof {
            vstd::arithmetic::div_mod::lemma_div_is_ordered(
                base as int * modifier as int,
                1000000000000000000,
                SCALE as int,
            );
            assert(1000000000000000000int / 1000000int == 1000000000000);
            vstd::arithmetic::div_mod::lemma_div_pos_is_pos(
                base as int * modifier as int,
                SCALE as int,
            );
        }
        r
    }

    /// Applies one event to the movement state and reports the click it
    /// gives rise to, if any. Fails exactly on an axis event whose axis
    /// has no profile, leaving the state unchanged.
    fn process_one(&mut self, ev: &GamepadEvent) -> (r: Result<Option<ClickRequest>, ClassifyError>)
        requires
            old(self).wf(),
            event_wf(*ev),
        ensures
            final(self).wf(),
            final(self).config == old(self).config,
            final(self).deadzone() == old(self).deadzone(),
            match r {
                Ok(click) => !event_bad(old(self).config, *ev) && final(self).state()
                    == classify_step(old(self).config, old(self).state(), *ev) && click
                    == click_of_event(old(self).config, *ev),
                Err(_) => event_bad(old(self).config, *ev) && final(self).state() == old(
                    self,
                ).state(),
            },
    {
        match ev {
            GamepadEvent::AxisChanged(axis, value) => {
                let smoothed_value = self.smooth_axis_event_value(axis, *value)?;
                proof {
                    lemma_curve_range(
                        axis_profile_spec(self.config, *axis).unwrap(),
                        if *value >= 0 {
                            *value as int
                        } else {
                            -(*value as int)
                        },
                    );
                }
                let x_axis = self.config.mouse_joystick.x_axis();
                let y_axis = self.config.mouse_joystick.y_axis();
                if *axis == x_axis {
                    self.mouse_input.movement_vector[0] = smoothed_value;
                } else if *axis == y_axis {
                    self.mouse_input.movement_vector[1] = smoothed_value;
                }
                Ok(None)
            },
            GamepadEvent::ButtonChanged(id, value) => {
                if *id == self.config.aim_button {
                    let smoothed_value = self.smooth_button_event_value(
                        &self.config.aim_button,
                        *value,
                    )?;
                    proof {
                        lemma_curve_range(self.config.zaxis_smoothing, *value as int);
                    }
                    let sens = self.aim_sensitivity_value(smoothed_value);
                    self.mouse_input.sensitivity_factor = sens;
                }
                Ok(None)
            },
            GamepadEvent::ButtonPressed(_btn, code) => {
                match self.config.lookup_action(*code) {
                    Some(action) => Ok(self.handle_button(&action, ClickEdge::Press)),
                    None => Ok(None),
                }
            },
            GamepadEvent::ButtonReleased(_btn, code) => {
                match self.config.lookup_action(*code) {
                    Some(action) => Ok(self.handle_button(&action, ClickEdge::Release)),
                    None => Ok(None),
                }
            },
            GamepadEvent::Other => Ok(None),
        }
    }

    /// Drains the tick's pending events in delivery order, mutating the
    /// movement state and appending click requests. A bad event aborts the
    /// tick's classification: the state and clicks of the events before it
    /// are kept, the rest of the queue is dropped.
    pub fn process_events(&mut self, events: &Vec<GamepadEvent>, clicks: &mut Vec<ClickRequest>)
        -> (r: Result<(), ClassifyError>)
        requires
            old(self).wf(),
            forall|i: int| 0 <= i < events@.len() ==> event_wf(#[trigger] events@[i]),
        ensures
            final(self).wf(),
            final(self).config == old(self).config,
            final(self).deadzone() == old(self).deadzone(),
            match r {
                Ok(()) => {
                    &&& forall|i: int| 0 <= i < events@.len() ==> !event_bad(
                        old(self).config,
                        #[trigger] events@[i],
                    )
                    &&& final(self).state() == events_fold(
                        old(self).config,
                        old(self).state(),
                        events@,
                    )
                    &&& final(clicks)@ == old(clicks)@ + clicks_of_events(
                        old(self).config,
                        events@,
                    )
                },
                Err(_) => exists|k: int|
                    {
                        &&& 0 <= k < events@.len()
                        &&& event_bad(old(self).config, #[trigger] events@[k])
                        &&& forall|j: int| 0 <= j < k ==> !event_bad(
                            old(self).config,
                            #[trigger] events@[j],
                        )
                        &&& final(self).state() == events_fold(
                            old(self).config,
                            old(self).state(),
                            events@.take(k),
                        )
                        &&& final(clicks)@ == old(clicks)@ + clicks_of_events(
                            old(self).config,
                            events@.take(k),
                        )
                    },
            },
    {
        let n = events.len();
        let mut i: usize = 0;
        proof {
            assert(events@.take(0int) =~= Seq::<GamepadEvent>::empty());
            assert(clicks@ =~= old(clicks)@ + clicks_of_events(old(self).config, events@.take(0int)));
        }
        while i < n
            invariant
                0 <= i <= n,
                n == events@.len(),
                forall|t: int| 0 <= t < events@.len() ==> event_wf(#[trigger] events@[t]),
                self.wf(),
                self.config == old(self).config,
                self.deadzone() == old(self).deadzone(),
                forall|j: int| 0 <= j < i ==> !event_bad(old(self).config, #[trigger] events@[j]),
                self.state() == events_fold(
                    old(self).config,
                    old(self).state(),
                    events@.take(i as int),
                ),
                clicks@ == old(clicks)@ + clicks_of_events(
                    old(self).config,
                    events@.take(i as int),
                ),
            decreases n - i,
        {
            let ev = events[i];
            let step = self.process_one(&ev);
            proof {
                assert(events@.take(i as int + 1).drop_last() =~= events@.take(i as int));
                assert(events@.take(i as int + 1).last() == events@[i as int]);
            }
            match step {
                Ok(click) => {
                    match click {
                        Some(c) => {
                            clicks.push(c);
                        },
                        None => {},
                    }
                },
                Err(e) => {
                    return Err(e);
                },
            }
            i = i + 1;
        }
        proof {
            assert(events@.take(n as int) =~= events@);
        }
        Ok(())
    }

    /// Runs one full tick: drains the given events, then evaluates motion
    /// once, if the resulting vector clears the deadzone on either axis.
    /// At most one motion delta is ever reported per tick. A bad event
    /// aborts the tick before motion is evaluated.
    pub fn process_frame(&mut self, events: &Vec<GamepadEvent>, clicks: &mut Vec<ClickRequest>)
        -> (r: Result<Option<(i32, i32)>, ClassifyError>)
        requires
            old(self).wf(),
            forall|i: int| 0 <= i < events@.len() ==> event_wf(#[trigger] events@[i]),
        ensures
            final(self).wf(),
            final(self).config == old(self).config,
            final(self).deadzone() == old(self).deadzone(),
            match r {
                Ok(motion) => {
                    &&& final(self).state() == events_fold(
                        old(self).config,
                        old(self).state(),
                        events@,
                    )
                    &&& final(clicks)@ == old(clicks)@ + clicks_of_events(
                        old(self).config,
                        events@,
                    )
                    &&& if abs(final(self).state().0) > final(self).deadzone() || abs(
                        final(self).state().1,
                    ) > final(self).deadzone() {
                        exists|lucky: int|
                            0 <= lucky < SCALE && delta_matches(
                                motion,
                                tick_spec(
                                    final(self).state().0,
                                    final(self).state().1,
                                    final(self).state().2,
                                    final(self).deadzone(),
                                    lucky,
                                ),
                            )
                    } else {
                        motion is None
                    }
                },
                Err(_) => exists|k: int|
                    {
                        &&& 0 <= k < events@.len()
                        &&& event_bad(old(self).config, #[trigger] events@[k])
                        &&& final(self).state() == events_fold(
                            old(self).config,
                            old(self).state(),
                            events@.take(k),
                        )
                    },
            },
    {
        match self.process_events(events, clicks) {
            Ok(()) => {},
            Err(e) => {
                return Err(e);
            },
        }
        let h = self.mouse_input.movement_vector[0];
        let v = self.mouse_input.movement_vector[1];
        let habs = if h < 0 {
            -h
        } else {
            h
        };
        let vabs = if v < 0 {
            -v
        } else {
            v
        };
        let deadzone = self.config.joystick_deadzone;
        if habs > deadzone || vabs > deadzone {
            Ok(movement_control(&self.mouse_input))
        } else {
            Ok(None)
        }
    }
}

} // verus!
