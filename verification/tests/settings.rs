use attention_challenge::home::Route;
use attention_challenge::settings::{ModalCallback, SettingsEffect, SettingsMsg, SettingsState};
use attention_challenge::volume::VolumeLevel;

fn assert_closed(state: &SettingsState) {
    assert_eq!(state.modal_title, "");
    assert_eq!(state.modal_text, "");
    assert!(!state.modal_visible);
    assert_eq!(state.modal_callback, ModalCallback::Noop);
}

#[test]
fn settings_open_without_a_dialog() {
    assert_closed(&SettingsState::new());
}

#[test]
fn back_button_leads_home() {
    let mut state = SettingsState::new();
    let effects = state.update(SettingsMsg::OnBackButton, false);
    assert_eq!(effects, vec![SettingsEffect::Navigate(Route::Home)]);
    assert_closed(&state);
}

#[test]
fn slider_positions_change_the_volume() {
    let mut state = SettingsState::new();
    let cases = [(3, VolumeLevel::Max), (2, VolumeLevel::Moderate), (1, VolumeLevel::Low)];
    for (value, level) in cases {
        assert!(SettingsState::accepts(&SettingsMsg::OnVolumeChange(value)));
        let effects = state.update(SettingsMsg::OnVolumeChange(value), false);
        assert_eq!(effects, vec![SettingsEffect::ChangeVolume(level)]);
    }
    assert_closed(&state);
}

#[test]
fn slider_has_three_positions() {
    assert!(!SettingsState::accepts(&SettingsMsg::OnVolumeChange(0)));
    assert!(!SettingsState::accepts(&SettingsMsg::OnVolumeChange(4)));
    assert!(SettingsState::accepts(&SettingsMsg::OnBackButton));
    assert!(SettingsState::accepts(&SettingsMsg::OnDNDChange(true)));
    assert!(SettingsState::accepts(&SettingsMsg::OpenDNDModal));
}

#[test]
fn dnd_changes_at_once_where_no_permission_is_needed() {
    let mut state = SettingsState::new();
    let effects = state.update(SettingsMsg::OnDNDChange(true), false);
    assert_eq!(effects, vec![SettingsEffect::ChangeDND(true)]);
    let effects = state.update(SettingsMsg::OnDNDChange(false), false);
    assert_eq!(effects, vec![SettingsEffect::ChangeDND(false)]);
}

#[test]
fn dnd_is_checked_first_where_permission_is_needed() {
    let mut state = SettingsState::new();
    let effects = state.update(SettingsMsg::OnDNDChange(true), true);
    assert_eq!(effects, vec![SettingsEffect::CheckDNDPermission]);
    let effects = state.update(SettingsMsg::OnDNDChange(false), true);
    assert_eq!(effects, vec![SettingsEffect::ChangeDND(false)]);
}

#[test]
fn permission_status_switches_on_or_asks() {
    let mut state = SettingsState::new();
    let effects = state.update(SettingsMsg::OnDNDPermissionStatus(true), true);
    assert_eq!(effects, vec![SettingsEffect::ChangeDND(true)]);
    let effects = state.update(SettingsMsg::OnDNDPermissionStatus(false), true);
    assert_eq!(effects, vec![SettingsEffect::Send(SettingsMsg::OpenDNDModal)]);
    assert_closed(&state);
}

#[test]
fn dialog_opens_and_closes() {
    let mut state = SettingsState::new();
    let effects = state.update(SettingsMsg::OpenDNDModal, true);
    assert!(effects.is_empty());
    assert_eq!(state.modal_title, "Do Not Disturb Access Required");
    assert_eq!(
        state.modal_text,
        "Please select `Attention Challenge` in the list and give it Do Not Disturb access"
    );
    assert!(state.modal_visible);
    assert_eq!(state.modal_callback, ModalCallback::RequestDNDPermission);
    let effects = state.update(SettingsMsg::CloseDNDModal, true);
    assert!(effects.is_empty());
    assert_closed(&state);
}

#[test]
fn answer_to_the_dialog() {
    let mut state = SettingsState::new();
    assert!(state.on_modal_answer(true).is_empty());
    assert!(state.on_modal_answer(false).is_empty());
    state.update(SettingsMsg::OpenDNDModal, true);
    assert_eq!(state.on_modal_answer(true), vec![SettingsEffect::RequestDNDPermission]);
    assert_eq!(
        state.on_modal_answer(false),
        vec![SettingsEffect::Send(SettingsMsg::CloseDNDModal)]
    );
}

#[test]
fn granted_permission_closes_the_dialog_and_switches_on() {
    let mut state = SettingsState::new();
    state.update(SettingsMsg::OpenDNDModal, true);
    let effects = state.update(SettingsMsg::OnDNDPermissionGranted(true), true);
    assert_eq!(
        effects,
        vec![SettingsEffect::Send(SettingsMsg::CloseDNDModal), SettingsEffect::ChangeDND(true)]
    );
    let effects = state.update(SettingsMsg::OnDNDPermissionGranted(false), true);
    assert_eq!(effects, vec![SettingsEffect::Send(SettingsMsg::CloseDNDModal)]);
    assert!(state.modal_visible);
}
