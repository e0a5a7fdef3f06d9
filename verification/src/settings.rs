//! The rules of the settings page: how the volume and the silencing of other
//! programs are changed, and how the permission for the latter is asked for.
//!
//! The page itself only performs what these rules decide: it hands each
//! message to [`SettingsState::update`] and carries out the effects that come
//! back.

use crate::home::Route;
use crate::volume::VolumeLevel;
use vstd::prelude::*;
use vstd::string::StringExecFns;

verus! {

/// What can happen on the settings page.
#[derive(Copy, Clone, Debug, PartialEq, Eq)]
pub enum SettingsMsg {
    OnBackButton,
    OnVolumeChange(usize),
    OnDNDChange(bool),
    OnDNDPermissionGranted(bool),
    OnDNDPermissionStatus(bool),
    OpenDNDModal,
    CloseDNDModal,
}

/// What the answer to the page's dialog leads to.
#[derive(Copy, Clone, Debug, PartialEq, Eq)]
pub enum ModalCallback {
    /// Nothing.
    Noop,
    /// The request for the permission to silence other programs, or the
    /// closing of the dialog.
    RequestDNDPermission,
}

/// What the page has to do after a message.
#[derive(Copy, Clone, Debug, PartialEq, Eq)]
pub enum SettingsEffect {
    /// Show another page.
    Navigate(Route),
    /// Make the volume known to the rest of the program.
    ChangeVolume(VolumeLevel),
    /// Make known to the rest of the program whether other programs are to
    /// be silenced.
    ChangeDND(bool),
    /// Ask the system whether the permission to silence other programs was
    /// given; the answer comes as `SettingsMsg::OnDNDPermissionStatus`.
    CheckDNDPermission,
    /// Ask the user for the permission to silence other programs; the answer
    /// comes as `SettingsMsg::OnDNDPermissionGranted`.
    RequestDNDPermission,
    /// Hand the message to the page as its next one.
    Send(SettingsMsg),
}

/// The state of the settings page: its dialog.
#[derive(Debug)]
pub struct SettingsState {
    pub modal_title: String,
    pub modal_text: String,
    pub modal_visible: bool,
    pub modal_callback: ModalCallback,
}

/// The state of the settings page as plain values.
pub struct SettingsView {
    pub modal_title: Seq<char>,
    pub modal_text: Seq<char>,
    pub modal_visible: bool,
    pub modal_callback: ModalCallback,
}

impl View for SettingsState {
    type V = SettingsView;

    open spec fn view(&self) -> SettingsView {
        SettingsView {
            modal_title: self.modal_title@,
            modal_text: self.modal_text@,
            modal_visible: self.modal_visible,
            modal_callback: self.modal_callback,
        }
    }
}

impl SettingsView {
    /// The page without its dialog.
    pub open spec fn closed() -> SettingsView {
        SettingsView {
            modal_title: Seq::empty(),
            modal_text: Seq::empty(),
            modal_visible: false,
            modal_callback: ModalCallback::Noop,
        }
    }

    /// The page with the dialog that asks for the permission to silence other
    /// programs.
    pub open spec fn asking() -> SettingsView {
        SettingsView {
            modal_title: "Do Not Disturb Access Required"@,
            modal_text: "Please select `Attention Challenge` in the list and give it Do Not Disturb access"@,
            modal_visible: true,
            modal_callback: ModalCallback::RequestDNDPermission,
        }
    }

    /// Whether the page can take `msg`: a change of volume names one of the
    /// three positions of the slider.
    pub open spec fn accepts(msg: SettingsMsg) -> bool {
        match msg {
            SettingsMsg::OnVolumeChange(value) => 1 <= value <= 3,
            _ => true,
        }
    }

    /// The state after `msg`: the dialog opens and closes when told to, and
    /// nothing else changes the page.
    pub open spec fn after(self, msg: SettingsMsg) -> SettingsView {
        match msg {
            SettingsMsg::OpenDNDModal => Self::asking(),
            SettingsMsg::CloseDNDModal => Self::closed(),
            _ => self,
        }
    }

    /// What is to do after `msg`, in the order in which it is to be done.
    /// `needs_permission` says whether the system wants to be asked before
    /// other programs are silenced.
    pub open spec fn effects_of(msg: SettingsMsg, needs_permission: bool) -> Seq<SettingsEffect> {
        match msg {
            SettingsMsg::OnBackButton => seq![SettingsEffect::Navigate(Route::Home)],
            SettingsMsg::OnVolumeChange(value) => seq![
                SettingsEffect::ChangeVolume(VolumeLevel::of_stored(value - 1)),
            ],
            SettingsMsg::OnDNDChange(value) => if needs_permission && value {
                seq![SettingsEffect::CheckDNDPermission]
            } else {
                seq![SettingsEffect::ChangeDND(value)]
            },
            SettingsMsg::OnDNDPermissionStatus(is_granted) => if is_granted {
                seq![SettingsEffect::ChangeDND(true)]
            } else {
                seq![SettingsEffect::Send(SettingsMsg::OpenDNDModal)]
            },
            SettingsMsg::OnDNDPermissionGranted(is_granted) => if is_granted {
                seq![
                    SettingsEffect::Send(SettingsMsg::CloseDNDModal),
                    SettingsEffect::ChangeDND(true),
                ]
            } else {
                seq![SettingsEffect::Send(SettingsMsg::CloseDNDModal)]
            },
            SettingsMsg::OpenDNDModal => seq![],
            SettingsMsg::CloseDNDModal => seq![],
        }
    }

    /// What is to do once the dialog is answered: with the request for the
    /// permission behind it, `ok` sends the request and anything else closes
    /// the dialog; with nothing behind it, nothing.
    pub open spec fn answer_effects(self, ok: bool) -> Seq<SettingsEffect> {
        match self.modal_callback {
            ModalCallback::Noop => seq![],
            ModalCallback::RequestDNDPermission => if ok {
                seq![SettingsEffect::RequestDNDPermission]
            } else {
                seq![SettingsEffect::Send(SettingsMsg::CloseDNDModal)]
            },
        }
    }
}

impl SettingsState {
    /// The page when it opens, without its dialog.
    pub fn new() -> (state: SettingsState)
        ensures
            state@ == SettingsView::closed(),
    {
        SettingsState {
            modal_title: String::new(),
            modal_text: String::new(),
            modal_visible: false,
            modal_callback: ModalCallback::Noop,
        }
    }

    /// Whether the page can take `msg`.
    pub fn accepts(msg: &SettingsMsg) -> (accepted: bool)
        ensures
            accepted == SettingsView::accepts(*msg),
    {
        match msg {
            SettingsMsg::OnVolumeChange(value) => 1 <= *value && *value <= 3,
            _ => true,
        }
    }

    /// Takes `msg` and says what the page has to do. `needs_permission` says
    /// whether the system wants to be asked before other programs are
    /// silenced.
    pub fn update(&mut self, msg: SettingsMsg, needs_permission: bool) -> (effects: Vec<
        SettingsEffect,
    >)
        requires
            SettingsView::accepts(msg),
        ensures
            final(self)@ == old(self)@.after(msg),
            effects@ == SettingsView::effects_of(msg, needs_permission),
    {
        let mut effects: Vec<SettingsEffect> = Vec::new();
        match msg {
            SettingsMsg::OnBackButton => {
                effects.push(SettingsEffect::Navigate(Route::Home));
            },
            SettingsMsg::OnVolumeChange(val) => {
                let level = VolumeLevel::from_slider_value(val);
                effects.push(SettingsEffect::ChangeVolume(level));
            },
            SettingsMsg::OnDNDChange(val) => {
                if needs_permission {
                    // If we switch dnd on we need to ask user grand android permission
                    if val {
                        // Check if permission is already granted
                        effects.push(SettingsEffect::CheckDNDPermission);
                    } else {
                        effects.push(SettingsEffect::ChangeDND(false));
                    }
                } else {
                    effects.push(SettingsEffect::ChangeDND(val));
                }
            },
            SettingsMsg::OnDNDPermissionStatus(is_granted) => {
                if is_granted {
                    effects.push(SettingsEffect::ChangeDND(true));
                } else {
                    // Request user to grant dnd permission
                    effects.push(SettingsEffect::Send(SettingsMsg::OpenDNDModal));
                }
            },
            SettingsMsg::OnDNDPermissionGranted(is_granted) => {
                effects.push(SettingsEffect::Send(SettingsMsg::CloseDNDModal));
                if is_granted {
                    effects.push(SettingsEffect::ChangeDND(true));
                }
            },
            SettingsMsg::OpenDNDModal => {
                self.modal_title = String::from_str("Do Not Disturb Access Required");
                self.modal_text = String::from_str(
                    "Please select `Attention Challenge` in the list and give it Do Not Disturb access",
                );
                self.modal_visible = true;
                self.modal_callback = ModalCallback::RequestDNDPermission;
            },
            SettingsMsg::CloseDNDModal => {
                self.modal_title = String::new();
                self.modal_text = String::new();
                self.modal_visible = false;
                self.modal_callback = ModalCallback::Noop;
            },
        }
        proof {
            assert(self@ =~= old(self)@.after(msg));
            assert(effects@ =~= SettingsView::effects_of(msg, needs_permission));
        }
        effects
    }

    /// Says what the page has to do once the dialog is answered.
    pub fn on_modal_answer(&self, ok: bool) -> (effects: Vec<SettingsEffect>)
        ensures
            effects@ == self@.answer_effects(ok),
    {
        let mut effects: Vec<SettingsEffect> = Vec::new();
        match self.modal_callback {
            ModalCallback::Noop => {},
            ModalCallback::RequestDNDPermission => {
                if ok {
                    effects.push(SettingsEffect::RequestDNDPermission);
                } else {
                    effects.push(SettingsEffect::Send(SettingsMsg::CloseDNDModal));
                }
            },
        }
        proof {
            assert(effects@ =~= self@.answer_effects(ok));
        }
        effects
    }
}

} // verus!
