//! The rules of the timer's main page: how a session starts, counts down,
//! rings its bells and stops, and how its length and delay are set.
//!
//! The page itself only performs what these rules decide: it hands each
//! message to [`HomeState::update`] and carries out the effects that come
//! back.

use crate::random::RandomSource;
use crate::rsg::generate_signals_with;
use crate::rsg::is_generated;
use crate::rsg::lemma_generated_schedule;
use crate::rsg::MIN_ACTIVE_DURATION;
use crate::rsg::SIGNAL_COUNT;
use vstd::prelude::*;

verus! {

/// Delay before the bells of a session when none is stored, in seconds.
pub const INITIAL_DELAY: usize = 3 * 60;

/// Length of a session when none is stored, in seconds.
pub const INITIAL_DURATION: usize = 15 * 60;

/// Longest session, in seconds.
pub const MAX_DURATION: usize = 30 * 60;

/// Shortest time during which the bells of a session ring, in seconds.
pub const MIN_ACTIVE_SESSION: usize = 5 * 60;

/// The two sounds of a session.
#[derive(Copy, Clone, Debug, PartialEq, Eq)]
pub enum Sound {
    Bowl,
    Ding,
}

/// The pages of the timer.
#[derive(Copy, Clone, Debug, PartialEq, Eq)]
pub enum Route {
    Home,
    About,
    Settings,
}

/// What can happen on the main page.
#[derive(Copy, Clone, Debug, PartialEq, Eq)]
pub enum Msg {
    OnMainButtonPress,
    OnHelpStopButtonPress,
    OnSettingsPauseButtonPress,
    OnDelayChange(usize),
    OnDurationChange(usize),
    OnSessionRated(usize),
    ReduceTimer,
    StopSession,
    PlaySound(Sound),
    OnAppPause,
    OnAppResume,
}

/// What the page has to do after a message.
#[derive(Copy, Clone, Debug, PartialEq, Eq)]
pub enum Effect {
    /// Note the time at which the session starts.
    RegisterSessionStart,
    /// Hand the message to the page as its next one.
    Send(Msg),
    /// Start sending `Msg::ReduceTimer` once a second.
    StartTimer,
    /// Stop sending `Msg::ReduceTimer`.
    StopTimer,
    /// Silence the notifications of other programs.
    EnableDnd,
    /// Let the notifications of other programs through again.
    DisableDnd,
    /// Show another page.
    Navigate(Route),
    /// Store the length of a session.
    SaveSessionDuration(usize),
    /// Store the delay before the bells.
    SaveActiveSessionDelay(usize),
    /// Store the session that started at the time noted, with its length and
    /// the score that it was given.
    SaveSession { duration: usize, score: usize },
    /// Sound a bell.
    Play(Sound),
    /// Keep the timer running while the program is in the background.
    StartForegroundService,
    /// The program is in the foreground again.
    StopForegroundService,
}

/// The state of the main page.
#[derive(Debug)]
pub struct HomeState {
    /// Active session delay
    pub delay: usize,
    /// Total session duration
    pub duration: usize,
    /// Session is active or not
    pub in_session: bool,
    /// Session is paused or not
    pub is_paused: bool,
    /// Vector of timers (in secs) at which a bell should ring
    pub signals: Vec<usize>,
    /// Session time remaining in seconds
    pub time_remaining: usize,
    /// Rating modal visibility
    pub rating_modal: bool,
}

/// The state of the main page as plain values.
pub struct HomeView {
    pub delay: int,
    pub duration: int,
    pub in_session: bool,
    pub is_paused: bool,
    pub signals: Seq<usize>,
    pub time_remaining: int,
    pub rating_modal: bool,
}

impl View for HomeState {
    type V = HomeView;

    open spec fn view(&self) -> HomeView {
        HomeView {
            delay: self.delay as int,
            duration: self.duration as int,
            in_session: self.in_session,
            is_paused: self.is_paused,
            signals: self.signals@,
            time_remaining: self.time_remaining as int,
            rating_modal: self.rating_modal,
        }
    }
}

impl HomeView {
    /// Whether the bells have at least the shortest time to ring in: the
    /// session is longer than the delay by that much.
    pub open spec fn wf(self) -> bool {
        0 <= self.delay && self.delay + MIN_ACTIVE_SESSION <= self.duration
    }

    /// Whether a second can pass: a session with its signals is under way
    /// and has time left.
    pub open spec fn can_tick(self) -> bool {
        &&& self.signals.len() >= 1
        &&& 1 <= self.time_remaining <= self.duration
    }

    /// Whether the page can take `msg`: every message but the passing of a
    /// second, and that one while the session is paused or can tick.
    pub open spec fn accepts(self, msg: Msg) -> bool {
        msg is ReduceTimer ==> self.is_paused || self.can_tick()
    }

    /// The state after the delay is set to `value`. A delay that leaves the
    /// bells less than the shortest time pushes the end of the session out,
    /// as far as the longest session; beyond that the delay is cut down.
    pub open spec fn with_delay(self, value: int) -> HomeView {
        if value > self.duration - MIN_ACTIVE_SESSION {
            if value < MAX_DURATION - MIN_ACTIVE_SESSION {
                HomeView { delay: value, duration: value + MIN_ACTIVE_SESSION, ..self }
            } else {
                HomeView {
                    delay: MAX_DURATION - MIN_ACTIVE_SESSION,
                    duration: MAX_DURATION as int,
                    ..self
                }
            }
        } else {
            HomeView { delay: value, ..self }
        }
    }

    /// The state after the length of the session is set to `value`. A length
    /// that leaves the bells less than the shortest time pulls the delay
    /// in; the session is never shorter than the shortest time itself.
    pub open spec fn with_duration(self, value: int) -> HomeView {
        if value < self.delay + MIN_ACTIVE_SESSION {
            if value > MIN_ACTIVE_SESSION {
                HomeView { delay: value - MIN_ACTIVE_SESSION, duration: value, ..self }
            } else {
                HomeView { delay: 0, duration: MIN_ACTIVE_SESSION as int, ..self }
            }
        } else {
            HomeView { duration: value, ..self }
        }
    }

    /// Whether a bell inside the session is due when `elapsed` seconds of
    /// it have passed: one of the signals but the last is set to that time.
    pub open spec fn bell_due(self, elapsed: int) -> bool {
        exists|i: int| 0 <= i < self.signals.len() - 1 && #[trigger] self.signals[i] == elapsed
    }

    /// The state after a second has passed: unchanged while paused;
    /// otherwise one second less remains, and at the end of the session the
    /// rating is asked for.
    pub open spec fn after_tick(self) -> HomeView {
        if self.is_paused {
            self
        } else {
            HomeView {
                time_remaining: self.time_remaining - 1,
                rating_modal: self.rating_modal || self.time_remaining == 1,
                ..self
            }
        }
    }

    /// What is to do after a second has passed: nothing while paused;
    /// otherwise a ding if a bell is due, and at the end of the session the
    /// stop and the bowl.
    pub open spec fn tick_effects(self) -> Seq<Effect> {
        if self.is_paused {
            seq![]
        } else {
            let ding = if self.bell_due(self.duration - (self.time_remaining - 1)) {
                seq![Effect::Send(Msg::PlaySound(Sound::Ding))]
            } else {
                seq![]
            };
            let end = if self.time_remaining == 1 {
                seq![Effect::Send(Msg::StopSession), Effect::Send(Msg::PlaySound(Sound::Bowl))]
            } else {
                seq![]
            };
            ding + end
        }
    }

    /// The state after `msg`, for every message but the press of the main
    /// button, which draws the signals of a new session.
    pub open spec fn after(self, msg: Msg) -> HomeView {
        match msg {
            Msg::OnMainButtonPress => self,
            Msg::OnHelpStopButtonPress => self,
            Msg::OnSettingsPauseButtonPress => if self.in_session {
                HomeView { is_paused: !self.is_paused, ..self }
            } else {
                self
            },
            Msg::OnDelayChange(value) => self.with_delay(value as int),
            Msg::OnDurationChange(value) => self.with_duration(value as int),
            Msg::OnSessionRated(_) => HomeView { rating_modal: false, ..self },
            Msg::ReduceTimer => self.after_tick(),
            Msg::StopSession => HomeView {
                in_session: false,
                is_paused: false,
                time_remaining: self.duration,
                ..self
            },
            Msg::PlaySound(_) => self,
            Msg::OnAppPause => self,
            Msg::OnAppResume => self,
        }
    }

    /// What is to do after `msg`, in the order in which it is to be done.
    /// `dnd` says whether other programs are to be silenced during a session.
    pub open spec fn effects_of(self, msg: Msg, dnd: bool) -> Seq<Effect> {
        match msg {
            Msg::OnMainButtonPress => {
                let start = seq![
                    Effect::RegisterSessionStart,
                    Effect::Send(Msg::PlaySound(Sound::Ding)),
                    Effect::StartTimer,
                ];
                if dnd {
                    start.push(Effect::EnableDnd)
                } else {
                    start
                }
            },
            Msg::OnHelpStopButtonPress => if self.in_session {
                seq![Effect::Send(Msg::StopSession)]
            } else {
                seq![Effect::Navigate(Route::About)]
            },
            Msg::OnSettingsPauseButtonPress => if self.in_session {
                seq![]
            } else {
                seq![Effect::Navigate(Route::Settings)]
            },
            Msg::OnDelayChange(_) | Msg::OnDurationChange(_) => {
                let next = self.after(msg);
                seq![
                    Effect::SaveSessionDuration(next.duration as usize),
                    Effect::SaveActiveSessionDelay(next.delay as usize),
                ]
            },
            Msg::OnSessionRated(score) => seq![
                Effect::SaveSession { duration: self.duration as usize, score },
            ],
            Msg::ReduceTimer => self.tick_effects(),
            Msg::StopSession => seq![Effect::StopTimer, Effect::DisableDnd],
            Msg::PlaySound(sound) => seq![Effect::Play(sound)],
            Msg::OnAppPause => if self.in_session {
                seq![Effect::StartForegroundService]
            } else {
                seq![]
            },
            Msg::OnAppResume => seq![Effect::StopForegroundService],
        }
    }

    /// Whether `next` is a state that `msg` may lead to from this one. The
    /// press of the main button starts a session with signals that the
    /// generator may give for what the delay leaves of the session; every
    /// other message leads to one state only.
    pub open spec fn steps_to(self, msg: Msg, next: HomeView) -> bool {
        match msg {
            Msg::OnMainButtonPress => {
                &&& is_generated(next.signals, self.duration - self.delay, self.delay)
                &&& next == HomeView {
                    signals: next.signals,
                    in_session: true,
                    time_remaining: self.duration,
                    ..self
                }
            },
            _ => next == self.after(msg),
        }
    }
}

/// The minutes and the seconds of a countdown of `time` seconds, as a clock
/// shows them.
pub fn minutes_and_seconds(time: usize) -> (clock: (usize, usize))
    ensures
        clock.0 == time / 60,
        clock.1 == time % 60,
{
    let minutes: usize = time / 60;
    let seconds: usize = time - minutes * 60;
    (minutes, seconds)
}

impl HomeState {
    /// The state of the page when it opens: no session under way, with the
    /// delay and the length that were stored.
    pub fn new(delay: usize, duration: usize) -> (state: HomeState)
        ensures
            state@ == (HomeView {
                delay: delay as int,
                duration: duration as int,
                in_session: false,
                is_paused: false,
                signals: Seq::empty(),
                time_remaining: INITIAL_DURATION as int,
                rating_modal: false,
            }),
    {
        HomeState {
            delay,
            duration,
            in_session: false,
            is_paused: false,
            signals: Vec::new(),
            time_remaining: INITIAL_DURATION,
            rating_modal: false,
        }
    }

    /// Whether the bells have at least the shortest time to ring in.
    pub fn is_valid(&self) -> (valid: bool)
        ensures
            valid == self@.wf(),
    {
        self.duration >= MIN_ACTIVE_SESSION && self.delay <= self.duration - MIN_ACTIVE_SESSION
    }

    /// Whether the page can take `msg`.
    pub fn accepts(&self, msg: &Msg) -> (accepted: bool)
        ensures
            accepted == self@.accepts(*msg),
    {
        match msg {
            Msg::ReduceTimer => self.is_paused || (self.signals.len() >= 1 && 1
                <= self.time_remaining && self.time_remaining <= self.duration),
            _ => true,
        }
    }

    /// Whether a bell inside the session is due when `elapsed` seconds of
    /// it have passed.
    fn is_bell_due(&self, elapsed: usize) -> (due: bool)
        requires
            self.signals@.len() >= 1,
        ensures
            due == self@.bell_due(elapsed as int),
    {
        let mut i: usize = 0;
        while i < self.signals.len() - 1
            invariant
                self.signals@.len() >= 1,
                i <= self.signals@.len() - 1,
                forall|k: int| 0 <= k < i ==> self.signals@[k] != elapsed,
            decreases self.signals@.len() - i,
        {
            if self.signals[i] == elapsed {
                proof {
                    assert(self@.signals[i as int] == elapsed);
                }
                return true;
            }
            i += 1;
        }
        proof {
            assert forall|k: int| 0 <= k < self@.signals.len() - 1 implies #[trigger] self@.signals[k]
                != elapsed by {
                assert(self.signals@[k] != elapsed);
            }
        }
        false
    }

    /// A second has passed.
    fn reduce_timer(&mut self) -> (effects: Vec<Effect>)
        requires
            old(self)@.accepts(Msg::ReduceTimer),
        ensures
            final(self)@ == old(self)@.after_tick(),
            effects@ == old(self)@.tick_effects(),
    {
        let mut effects: Vec<Effect> = Vec::new();
        if !self.is_paused {
            self.time_remaining -= 1;
            let time_elapsed: usize = self.duration - self.time_remaining;
            proof {
                assert(self@.signals == old(self)@.signals);
                assert(self@.bell_due(time_elapsed as int) == old(self)@.bell_due(
                    time_elapsed as int,
                ));
            }
            // Play ding sound for all signals except of the last
            if self.is_bell_due(time_elapsed) {
                effects.push(Effect::Send(Msg::PlaySound(Sound::Ding)));
            }
            if self.time_remaining == 0 {
                effects.push(Effect::Send(Msg::StopSession));
                effects.push(Effect::Send(Msg::PlaySound(Sound::Bowl)));
                self.rating_modal = true;
            }
            proof {
                assert(self@.signals == old(self)@.signals);
            }
        }
        proof {
            assert(self@ =~= old(self)@.after_tick());
            assert(effects@ =~= old(self)@.tick_effects());
        }
        effects
    }

    /// Takes `msg`, drawing the signals of a new session from `rng`, and says
    /// what the page has to do. `dnd` says whether other programs are to be
    /// silenced during a session.
    pub fn update_with(&mut self, msg: Msg, dnd: bool, rng: &mut RandomSource) -> (effects: Vec<
        Effect,
    >)
        requires
            old(self)@.wf(),
            old(self)@.accepts(msg),
        ensures
            old(self)@.steps_to(msg, final(self)@),
            effects@ == old(self)@.effects_of(msg, dnd),
            final(self)@.wf(),
            (*old(rng) is Thread) == (*final(rng) is Thread),
    {
        let mut effects: Vec<Effect> = Vec::new();
        match msg {
            Msg::OnMainButtonPress => {
                // Register session start time
                effects.push(Effect::RegisterSessionStart);
                self.signals = generate_signals_with(self.duration - self.delay, self.delay, rng);
                effects.push(Effect::Send(Msg::PlaySound(Sound::Ding)));
                self.in_session = true;
                self.time_remaining = self.duration;
                effects.push(Effect::StartTimer);
                // Enable DND mode if necessary
                if dnd {
                    effects.push(Effect::EnableDnd);
                }
            },
            Msg::OnHelpStopButtonPress => {
                if self.in_session {
                    effects.push(Effect::Send(Msg::StopSession));
                } else {
                    effects.push(Effect::Navigate(Route::About));
                }
            },
            Msg::OnSettingsPauseButtonPress => {
                if self.in_session {
                    self.is_paused = !self.is_paused;
                } else {
                    effects.push(Effect::Navigate(Route::Settings));
                }
            },
            Msg::OnDelayChange(value) => {
                if value > self.duration - MIN_ACTIVE_SESSION {
                    if value < MAX_DURATION - MIN_ACTIVE_SESSION {
                        self.delay = value;
                        self.duration = value + MIN_ACTIVE_SESSION;
                    } else {
                        self.delay = MAX_DURATION - MIN_ACTIVE_SESSION;
                        self.duration = MAX_DURATION;
                    }
                } else {
                    self.delay = value;
                }
                effects.push(Effect::SaveSessionDuration(self.duration));
                effects.push(Effect::SaveActiveSessionDelay(self.delay));
            },
            Msg::OnDurationChange(value) => {
                if value < self.delay + MIN_ACTIVE_SESSION {
                    if value > MIN_ACTIVE_SESSION {
                        self.delay = value - MIN_ACTIVE_SESSION;
                        self.duration = value;
                    } else {
                        self.delay = 0;
                        self.duration = MIN_ACTIVE_SESSION;
                    }
                } else {
                    self.duration = value;
                }
                effects.push(Effect::SaveSessionDuration(self.duration));
                effects.push(Effect::SaveActiveSessionDelay(self.delay));
            },
            Msg::OnSessionRated(value) => {
                self.rating_modal = false;
                effects.push(Effect::SaveSession { duration: self.duration, score: value });
            },
            Msg::ReduceTimer => {
                effects = self.reduce_timer();
            },
            Msg::StopSession => {
                effects.push(Effect::StopTimer);
                self.in_session = false;
                self.is_paused = false;
                self.time_remaining = self.duration;
                // Disable DND mode
                effects.push(Effect::DisableDnd);
            },
            Msg::PlaySound(sound) => {
                effects.push(Effect::Play(sound));
            },
            Msg::OnAppPause => {
                if self.in_session {
                    effects.push(Effect::StartForegroundService);
                }
            },
            Msg::OnAppResume => {
                effects.push(Effect::StopForegroundService);
            },
        }
        proof {
            if !(msg is OnMainButtonPress) {
                assert(self@ =~= old(self)@.after(msg));
            }
            assert(effects@ =~= old(self)@.effects_of(msg, dnd));
        }
        effects
    }

    /// Takes `msg` and says what the page has to do. `dnd` says whether other
    /// programs are to be silenced during a session.
    pub fn update(&mut self, msg: Msg, dnd: bool) -> (effects: Vec<Effect>)
        requires
            old(self)@.wf(),
            old(self)@.accepts(msg),
        ensures
            old(self)@.steps_to(msg, final(self)@),
            effects@ == old(self)@.effects_of(msg, dnd),
            final(self)@.wf(),
    {
        let mut rng = RandomSource::from_thread();
        self.update_with(msg, dnd, &mut rng)
    }
}

/// No message takes from the bells the shortest time they ring in: a delay and
/// a length that leave it still leave it after every message but the press
/// of the main button, which changes neither.
pub proof fn lemma_parameters_stay_valid(state: HomeView, msg: Msg)
    requires
        state.wf(),
    ensures
        state.after(msg).wf(),
        state.after(msg).duration - state.after(msg).delay >= MIN_ACTIVE_SESSION,
{
}

/// A session that is no longer than the longest stays so when its delay or
/// its length is set to a value that is no greater than the longest session.
pub proof fn lemma_parameters_stay_within_longest(state: HomeView, value: int)
    requires
        state.wf(),
        state.duration <= MAX_DURATION,
        0 <= value <= MAX_DURATION,
    ensures
        state.with_delay(value).duration <= MAX_DURATION,
        state.with_duration(value).duration <= MAX_DURATION,
{
}

/// The session that the press of the main button starts has five signals,
/// the first after the delay and the last at the end of the session; it has
/// all its time left and can tick.
pub proof fn lemma_started_session(state: HomeView, next: HomeView)
    requires
        state.wf(),
        state.steps_to(Msg::OnMainButtonPress, next),
    ensures
        next.in_session,
        next.signals.len() == SIGNAL_COUNT,
        state.delay < next.signals[0],
        next.signals[SIGNAL_COUNT - 1] == next.duration,
        next.time_remaining == next.duration,
        next.can_tick(),
{
    lemma_generated_schedule(next.signals, state.duration - state.delay, state.delay);
}

/// A session that can tick counts down second by second: unless it is
/// paused, a tick leaves one second less, the session can tick again while
/// time is left, and the bowl sounds with the tick that leaves none.
pub proof fn lemma_tick_counts_down(state: HomeView)
    requires
        state.can_tick(),
        !state.is_paused,
    ensures
        state.after_tick().time_remaining == state.time_remaining - 1,
        state.time_remaining > 1 ==> state.after_tick().can_tick(),
        state.tick_effects().contains(Effect::Send(Msg::PlaySound(Sound::Bowl)))
            <==> state.time_remaining == 1,
{
    let effects = state.tick_effects();
    let bowl = Effect::Send(Msg::PlaySound(Sound::Bowl));
    if state.time_remaining == 1 {
        assert(effects[effects.len() - 1] == bowl);
    } else {
        assert forall|i: int| 0 <= i < effects.len() implies effects[i] != bowl by {}
    }
}

} // verus!
