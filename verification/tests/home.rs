use attention_challenge::home::{
    minutes_and_seconds, Effect, HomeState, Msg, Route, Sound, INITIAL_DELAY, INITIAL_DURATION, MAX_DURATION,
    MIN_ACTIVE_SESSION,
};
use attention_challenge::random::RandomSource;

fn ding() -> Effect {
    Effect::Send(Msg::PlaySound(Sound::Ding))
}

fn started(delay: usize, duration: usize, seed: u64) -> HomeState {
    let mut state = HomeState::new(delay, duration);
    assert!(state.is_valid());
    state.update_with(Msg::OnMainButtonPress, false, &mut RandomSource::from_seed(seed));
    state
}

#[test]
fn constants_of_the_page() {
    assert_eq!(INITIAL_DELAY, 180);
    assert_eq!(INITIAL_DURATION, 900);
    assert_eq!(MAX_DURATION, 1800);
    assert_eq!(MIN_ACTIVE_SESSION, 300);
}

#[test]
fn page_opens_without_a_session() {
    let state = HomeState::new(180, 900);
    assert_eq!(state.delay, 180);
    assert_eq!(state.duration, 900);
    assert!(!state.in_session);
    assert!(!state.is_paused);
    assert!(state.signals.is_empty());
    assert_eq!(state.time_remaining, 900);
    assert!(!state.rating_modal);
    assert_eq!(HomeState::new(0, 300).time_remaining, 900);
}

#[test]
fn parameters_are_valid_when_the_bells_have_five_minutes() {
    assert!(HomeState::new(180, 900).is_valid());
    assert!(HomeState::new(0, 300).is_valid());
    assert!(HomeState::new(1500, 1800).is_valid());
    assert!(!HomeState::new(1, 300).is_valid());
    assert!(!HomeState::new(0, 299).is_valid());
    assert!(!HomeState::new(900, 900).is_valid());
    assert!(!HomeState::new(usize::MAX, usize::MAX).is_valid());
    assert!(HomeState::new(usize::MAX - 300, usize::MAX).is_valid());
}

#[test]
fn main_button_starts_a_session() {
    let mut state = HomeState::new(180, 900);
    let effects = state.update(Msg::OnMainButtonPress, false);
    assert_eq!(effects, vec![Effect::RegisterSessionStart, ding(), Effect::StartTimer]);
    assert!(state.in_session);
    assert!(!state.is_paused);
    assert_eq!(state.time_remaining, 900);
    assert_eq!(state.delay, 180);
    assert_eq!(state.duration, 900);
    assert_eq!(state.signals.len(), 5);
    assert_eq!(state.signals[4], 900);
    assert!(state.signals[0] > 180);
    assert!(state.signals.windows(2).all(|pair| pair[0] < pair[1]));
    assert!(!state.rating_modal);
}

#[test]
fn main_button_silences_other_programs_when_asked() {
    let mut state = HomeState::new(0, 300);
    let effects = state.update(Msg::OnMainButtonPress, true);
    assert_eq!(
        effects,
        vec![Effect::RegisterSessionStart, ding(), Effect::StartTimer, Effect::EnableDnd]
    );
}

#[test]
fn same_seed_starts_the_same_session() {
    let first = started(180, 900, 5);
    let second = started(180, 900, 5);
    assert_eq!(first.signals, second.signals);
    let differs = (6..40u64).any(|seed| started(180, 900, seed).signals != first.signals);
    assert!(differs);
}

#[test]
fn help_button_shows_the_about_page_or_stops() {
    let mut state = HomeState::new(180, 900);
    assert_eq!(state.update(Msg::OnHelpStopButtonPress, false), vec![Effect::Navigate(Route::About)]);
    let mut state = started(180, 900, 1);
    assert_eq!(
        state.update(Msg::OnHelpStopButtonPress, false),
        vec![Effect::Send(Msg::StopSession)]
    );
    assert!(state.in_session);
}

#[test]
fn settings_button_shows_the_settings_or_pauses() {
    let mut state = HomeState::new(180, 900);
    assert_eq!(
        state.update(Msg::OnSettingsPauseButtonPress, false),
        vec![Effect::Navigate(Route::Settings)]
    );
    assert!(!state.is_paused);
    let mut state = started(180, 900, 1);
    assert!(state.update(Msg::OnSettingsPauseButtonPress, false).is_empty());
    assert!(state.is_paused);
    assert!(state.update(Msg::OnSettingsPauseButtonPress, false).is_empty());
    assert!(!state.is_paused);
}

#[test]
fn delay_within_the_session_leaves_its_length() {
    let mut state = HomeState::new(180, 900);
    let effects = state.update(Msg::OnDelayChange(600), false);
    assert_eq!((state.delay, state.duration), (600, 900));
    assert_eq!(
        effects,
        vec![Effect::SaveSessionDuration(900), Effect::SaveActiveSessionDelay(600)]
    );
    state.update(Msg::OnDelayChange(0), false);
    assert_eq!((state.delay, state.duration), (0, 900));
}

#[test]
fn delay_pushes_the_end_of_the_session_out() {
    let mut state = HomeState::new(180, 900);
    let effects = state.update(Msg::OnDelayChange(660), false);
    assert_eq!((state.delay, state.duration), (660, 960));
    assert_eq!(
        effects,
        vec![Effect::SaveSessionDuration(960), Effect::SaveActiveSessionDelay(660)]
    );
    state.update(Msg::OnDelayChange(1440), false);
    assert_eq!((state.delay, state.duration), (1440, 1740));
}

#[test]
fn delay_stops_five_minutes_before_the_longest_session() {
    let mut state = HomeState::new(180, 900);
    state.update(Msg::OnDelayChange(1500), false);
    assert_eq!((state.delay, state.duration), (1500, 1800));
    let mut state = HomeState::new(180, 900);
    state.update(Msg::OnDelayChange(1800), false);
    assert_eq!((state.delay, state.duration), (1500, 1800));
    let mut state = HomeState::new(180, 900);
    state.update(Msg::OnDelayChange(usize::MAX), false);
    assert_eq!((state.delay, state.duration), (1500, 1800));
}

#[test]
fn duration_above_the_delay_leaves_the_delay() {
    let mut state = HomeState::new(180, 900);
    let effects = state.update(Msg::OnDurationChange(1200), false);
    assert_eq!((state.delay, state.duration), (180, 1200));
    assert_eq!(
        effects,
        vec![Effect::SaveSessionDuration(1200), Effect::SaveActiveSessionDelay(180)]
    );
    state.update(Msg::OnDurationChange(480), false);
    assert_eq!((state.delay, state.duration), (180, 480));
}

#[test]
fn duration_pulls_the_delay_in() {
    let mut state = HomeState::new(600, 900);
    let effects = state.update(Msg::OnDurationChange(840), false);
    assert_eq!((state.delay, state.duration), (540, 840));
    assert_eq!(
        effects,
        vec![Effect::SaveSessionDuration(840), Effect::SaveActiveSessionDelay(540)]
    );
    state.update(Msg::OnDurationChange(301), false);
    assert_eq!((state.delay, state.duration), (1, 301));
}

#[test]
fn duration_is_never_under_five_minutes() {
    let mut state = HomeState::new(600, 900);
    state.update(Msg::OnDurationChange(300), false);
    assert_eq!((state.delay, state.duration), (0, 300));
    let mut state = HomeState::new(600, 900);
    state.update(Msg::OnDurationChange(0), false);
    assert_eq!((state.delay, state.duration), (0, 300));
    let mut state = HomeState::new(0, 900);
    state.update(Msg::OnDurationChange(120), false);
    assert_eq!((state.delay, state.duration), (0, 300));
}

#[test]
fn parameters_stay_valid_whatever_is_set() {
    let values = [0, 1, 60, 299, 300, 301, 600, 900, 1499, 1500, 1501, 1800, 5000, usize::MAX];
    for first in values {
        for second in values {
            let mut state = HomeState::new(180, 900);
            state.update(Msg::OnDelayChange(first), false);
            assert!(state.is_valid());
            state.update(Msg::OnDurationChange(second), false);
            assert!(state.is_valid());
            state.update(Msg::OnDelayChange(first), false);
            assert!(state.is_valid());
            assert!(state.duration - state.delay >= MIN_ACTIVE_SESSION);
            if first <= MAX_DURATION && second <= MAX_DURATION {
                assert!(state.duration <= MAX_DURATION);
            }
        }
    }
}

#[test]
fn rating_saves_the_session() {
    let mut state = started(0, 300, 2);
    state.rating_modal = true;
    let effects = state.update(Msg::OnSessionRated(4), false);
    assert_eq!(effects, vec![Effect::SaveSession { duration: 300, score: 4 }]);
    assert!(!state.rating_modal);
}

#[test]
fn tick_needs_a_session_with_time_left() {
    let mut state = HomeState::new(180, 900);
    assert!(!state.accepts(&Msg::ReduceTimer));
    assert!(state.accepts(&Msg::OnMainButtonPress));
    assert!(state.accepts(&Msg::StopSession));
    state.update(Msg::OnMainButtonPress, false);
    assert!(state.accepts(&Msg::ReduceTimer));
    state.time_remaining = 0;
    assert!(!state.accepts(&Msg::ReduceTimer));
    state.is_paused = true;
    assert!(state.accepts(&Msg::ReduceTimer));
    state.is_paused = false;
    state.time_remaining = 901;
    assert!(!state.accepts(&Msg::ReduceTimer));
    state.time_remaining = 900;
    assert!(state.accepts(&Msg::ReduceTimer));
}

#[test]
fn tick_takes_a_second() {
    let mut state = started(180, 900, 3);
    let effects = state.update(Msg::ReduceTimer, false);
    assert!(effects.is_empty());
    assert_eq!(state.time_remaining, 899);
    assert!(state.in_session);
    assert!(!state.rating_modal);
}

#[test]
fn paused_session_does_not_tick() {
    let mut state = started(180, 900, 3);
    state.update(Msg::OnSettingsPauseButtonPress, false);
    for _ in 0..5 {
        assert!(state.update(Msg::ReduceTimer, false).is_empty());
    }
    assert_eq!(state.time_remaining, 900);
    state.update(Msg::OnSettingsPauseButtonPress, false);
    state.update(Msg::ReduceTimer, false);
    assert_eq!(state.time_remaining, 899);
}

#[test]
fn bells_ring_at_their_signals() {
    let mut state = HomeState::new(10, 310);
    state.in_session = true;
    state.time_remaining = 310;
    state.signals = vec![40, 100, 180, 250, 310];
    let mut rung = Vec::new();
    for second in 1..=310usize {
        assert!(state.accepts(&Msg::ReduceTimer));
        let effects = state.update(Msg::ReduceTimer, false);
        assert_eq!(state.time_remaining, 310 - second);
        if second == 310 {
            assert_eq!(
                effects,
                vec![Effect::Send(Msg::StopSession), Effect::Send(Msg::PlaySound(Sound::Bowl))]
            );
        } else if effects.is_empty() {
            assert!(!state.rating_modal);
        } else {
            assert_eq!(effects, vec![ding()]);
            rung.push(second);
        }
    }
    assert_eq!(rung, vec![40, 100, 180, 250]);
    assert!(state.rating_modal);
    assert_eq!(state.time_remaining, 0);
}

#[test]
fn generated_session_rings_four_bells_and_the_bowl() {
    for seed in 0..10u64 {
        let mut state = started(180, 900, seed);
        let signals = state.signals.clone();
        let mut dings = Vec::new();
        let mut bowls = Vec::new();
        for second in 1..=900usize {
            for effect in state.update(Msg::ReduceTimer, false) {
                match effect {
                    Effect::Send(Msg::PlaySound(Sound::Ding)) => dings.push(second),
                    Effect::Send(Msg::PlaySound(Sound::Bowl)) => bowls.push(second),
                    Effect::Send(Msg::StopSession) => assert_eq!(second, 900),
                    other => panic!("{other:?}"),
                }
            }
        }
        assert_eq!(dings, signals[..4].to_vec());
        assert_eq!(bowls, vec![900]);
        assert!(dings.iter().all(|second| *second > 180));
    }
}

#[test]
fn last_signal_before_the_end_rings_with_the_bowl() {
    let mut state = HomeState::new(0, 300);
    state.in_session = true;
    state.time_remaining = 1;
    state.signals = vec![30, 60, 90, 300, 300];
    let effects = state.update(Msg::ReduceTimer, false);
    assert_eq!(
        effects,
        vec![ding(), Effect::Send(Msg::StopSession), Effect::Send(Msg::PlaySound(Sound::Bowl))]
    );
    assert!(state.rating_modal);
}

#[test]
fn stop_ends_the_session() {
    let mut state = started(180, 900, 4);
    state.update(Msg::ReduceTimer, false);
    state.update(Msg::OnSettingsPauseButtonPress, false);
    let signals = state.signals.clone();
    let effects = state.update(Msg::StopSession, false);
    assert_eq!(effects, vec![Effect::StopTimer, Effect::DisableDnd]);
    assert!(!state.in_session);
    assert!(!state.is_paused);
    assert_eq!(state.time_remaining, 900);
    assert_eq!(state.signals, signals);
}

#[test]
fn sounds_are_played() {
    let mut state = HomeState::new(180, 900);
    assert_eq!(state.update(Msg::PlaySound(Sound::Ding), false), vec![Effect::Play(Sound::Ding)]);
    assert_eq!(state.update(Msg::PlaySound(Sound::Bowl), false), vec![Effect::Play(Sound::Bowl)]);
}

#[test]
fn background_keeps_a_session_running() {
    let mut state = HomeState::new(180, 900);
    assert!(state.update(Msg::OnAppPause, false).is_empty());
    assert_eq!(state.update(Msg::OnAppResume, false), vec![Effect::StopForegroundService]);
    let mut state = started(180, 900, 4);
    assert_eq!(state.update(Msg::OnAppPause, false), vec![Effect::StartForegroundService]);
    assert_eq!(state.update(Msg::OnAppResume, false), vec![Effect::StopForegroundService]);
}

#[test]
fn countdown_shows_minutes_and_seconds() {
    assert_eq!(minutes_and_seconds(0), (0, 0));
    assert_eq!(minutes_and_seconds(59), (0, 59));
    assert_eq!(minutes_and_seconds(60), (1, 0));
    assert_eq!(minutes_and_seconds(899), (14, 59));
    assert_eq!(minutes_and_seconds(1800), (30, 0));
    assert_eq!(minutes_and_seconds(usize::MAX), (usize::MAX / 60, usize::MAX % 60));
}
