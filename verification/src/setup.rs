//! The dashboard's setup checklist and alert banners, derived from the
//! states of Rclone, the Google OAuth client and the Google remotes.
use vstd::prelude::*;

use crate::metadata::{GoogleClientState, GoogleRemotesState, RcloneState};
use crate::rclone::remotes::RemoteState;
use crate::text::{chars_of, push_str, string_from, string_of};

verus! {

/// A banner across the top of a page.
#[derive(Debug, Clone)]
pub struct AlertItem {
    pub level: &'static str,
    pub icon: &'static str,
    pub message: String,
    pub modal_target: &'static str,
    pub dismiss_action: &'static str,
}

/// One step of the setup checklist.
#[derive(Debug, Clone)]
pub struct SetupStep {
    pub icon: &'static str,
    pub title: &'static str,
    pub description: String,
    pub state_label: &'static str,
    pub state_class: &'static str,
    pub complete: bool,
    pub modal_target: &'static str,
    pub action: &'static str,
    pub disabled: bool,
    pub detail: String,
}

/// One configured Rclone remote on the remotes page.
#[derive(Debug, Clone)]
pub struct RemoteView {
    pub name: String,
    pub backend: String,
    pub access: &'static str,
    pub purpose: &'static str,
    pub status: &'static str,
    pub status_class: &'static str,
}

pub open spec fn remote_label(state: RemoteState) -> Seq<char> {
    match state {
        RemoteState::Ready => "Ready"@,
        RemoteState::Configuring => "Configuring"@,
        RemoteState::NotConfigured | RemoteState::Waiting => "Not ready"@,
        RemoteState::Conflict(_) => "Conflict"@,
        RemoteState::Error(_) => "Error"@,
    }
}

pub open spec fn remote_class(state: RemoteState) -> Seq<char> {
    match state {
        RemoteState::Ready => "text-bg-success"@,
        RemoteState::Configuring | RemoteState::Waiting => "text-bg-warning"@,
        RemoteState::NotConfigured => "text-bg-secondary"@,
        RemoteState::Conflict(_) | RemoteState::Error(_) => "text-bg-danger"@,
    }
}

/// The badge text of a Google remote's state.
pub fn remote_state_label(state: &RemoteState) -> (label: &'static str)
    ensures
        label@ == remote_label(*state),
{
    match state {
        RemoteState::Ready => "Ready",
        RemoteState::Configuring => "Configuring",
        RemoteState::NotConfigured | RemoteState::Waiting => "Not ready",
        RemoteState::Conflict(_) => "Conflict",
        RemoteState::Error(_) => "Error",
    }
}

/// The badge colour of a Google remote's state.
pub fn remote_state_class(state: &RemoteState) -> (class: &'static str)
    ensures
        class@ == remote_class(*state),
{
    match state {
        RemoteState::Ready => "text-bg-success",
        RemoteState::Configuring | RemoteState::Waiting => "text-bg-warning",
        RemoteState::NotConfigured => "text-bg-secondary",
        RemoteState::Conflict(_) | RemoteState::Error(_) => "text-bg-danger",
    }
}

fn joined(prefix: &str, detail: &String) -> (text: String)
    ensures
        text@ == prefix@ + detail@,
{
    let mut v = chars_of(prefix);
    push_str(&mut v, detail.as_str());
    string_of(v.as_slice())
}

fn alert(level: &'static str, icon: &'static str, message: String, modal_target: &'static str, dismiss_action: &'static str) -> (a: AlertItem)
    ensures
        a.level == level,
        a.icon == icon,
        a.message == message,
        a.modal_target == modal_target,
        a.dismiss_action == dismiss_action,
{
    AlertItem { level, icon, message, modal_target, dismiss_action }
}

/// The alert a Rclone state raises, if any.
pub open spec fn rclone_alert(state: RcloneState) -> Option<(Seq<char>, Seq<char>, Seq<char>)> {
    match state {
        RcloneState::Initializing => Some(("warning"@, "bi-hourglass-split"@, "BOREAL is initializing Rclone..."@)),
        RcloneState::Ready(_) => None,
        RcloneState::Error(e) => Some(("danger"@, "bi-exclamation-triangle"@, "Rclone initialization failed: "@ + e@)),
    }
}

/// The alert a Google client state raises, if any.
pub open spec fn client_alert(state: GoogleClientState) -> Option<(Seq<char>, Seq<char>, Seq<char>)> {
    match state {
        GoogleClientState::NotConfigured => Some(("warning"@, "bi-key"@, "Google Client ID is not configured"@)),
        GoogleClientState::Ready(_) => None,
        GoogleClientState::Error(e) => Some(
            ("danger"@, "bi-key"@, "Google Client ID configuration is invalid: "@ + e@),
        ),
    }
}

/// The banners of a page, in order: the bookmark reminder when it is due,
/// then Rclone's state, then the Google client's.
pub open spec fn alerts_are(
    alerts: Seq<AlertItem>,
    rclone: RcloneState,
    client: GoogleClientState,
    bookmark: bool,
) -> bool {
    let b = if bookmark { 1int } else { 0int };
    let r = if rclone_alert(rclone) is Some { 1int } else { 0int };
    let c = if client_alert(client) is Some { 1int } else { 0int };
    &&& alerts.len() == b + r + c
    &&& bookmark ==> {
        &&& alerts[0].level@ == "primary"@
        &&& alerts[0].icon@ == "bi-bookmark-star"@
        &&& alerts[0].message@ == "Bookmark this page so you can reopen BOREAL while it is running"@
        &&& alerts[0].modal_target@ == ""@
        &&& alerts[0].dismiss_action@ == "/settings/bookmark-reminder/dismiss"@
    }
    &&& rclone_alert(rclone) matches Some((level, icon, message)) ==> {
        &&& alerts[b].level@ == level
        &&& alerts[b].icon@ == icon
        &&& alerts[b].message@ == message
        &&& alerts[b].modal_target@ == ""@
        &&& alerts[b].dismiss_action@ == ""@
    }
    &&& client_alert(client) matches Some((level, icon, message)) ==> {
        &&& alerts[b + r].level@ == level
        &&& alerts[b + r].icon@ == icon
        &&& alerts[b + r].message@ == message
        &&& alerts[b + r].modal_target@ == "googleClientSetupModal"@
        &&& alerts[b + r].dismiss_action@ == ""@
    }
}

/// The banners of a page.
pub fn build_alerts(rclone_state: &RcloneState, google_client_state: &GoogleClientState, show_bookmark_reminder: bool) -> (alerts: Vec<AlertItem>)
    ensures
        alerts_are(alerts@, *rclone_state, *google_client_state, show_bookmark_reminder),
{
    let mut alerts: Vec<AlertItem> = Vec::new();
    if show_bookmark_reminder {
        alerts.push(
            alert(
                "primary",
                "bi-bookmark-star",
                string_from("Bookmark this page so you can reopen BOREAL while it is running"),
                "",
                "/settings/bookmark-reminder/dismiss",
            ),
        );
    }
    match rclone_state {
        RcloneState::Initializing => {
            alerts.push(alert("warning", "bi-hourglass-split", string_from("BOREAL is initializing Rclone..."), "", ""));
        },
        RcloneState::Ready(_) => {},
        RcloneState::Error(error) => {
            alerts.push(alert("danger", "bi-exclamation-triangle", joined("Rclone initialization failed: ", error), "", ""));
        },
    }
    match google_client_state {
        GoogleClientState::NotConfigured => {
            alerts.push(
                alert("warning", "bi-key", string_from("Google Client ID is not configured"), "googleClientSetupModal", ""),
            );
        },
        GoogleClientState::Ready(_) => {},
        GoogleClientState::Error(error) => {
            alerts.push(
                alert(
                    "danger",
                    "bi-key",
                    joined("Google Client ID configuration is invalid: ", error),
                    "googleClientSetupModal",
                    "",
                ),
            );
        },
    }
    alerts
}

/// Whether the read-only remote can be set up now: Rclone and the Google
/// client are ready and the remote is neither being set up, ready, nor in
/// conflict.
pub open spec fn remote_setup_disabled(rclone: RcloneState, client: GoogleClientState, ro: RemoteState) -> bool {
    !(rclone is Ready && client is Ready) || ro is Configuring || ro is Ready || ro is Conflict
}

/// The share of setup done, in percent: the three steps and the decision
/// about the Persons directory count a quarter each.
pub open spec fn setup_percent_of(steps: Seq<SetupStep>, directory_decided: bool) -> nat {
    let done = (if steps[0].complete { 1nat } else { 0nat }) + (if steps[1].complete { 1nat } else { 0nat }) + (
    if steps[2].complete { 1nat } else { 0nat }) + (if directory_decided { 1nat } else { 0nat });
    done * 100 / 4
}

/// The setup checklist and how far it has come.
pub open spec fn setup_shown(
    steps: Seq<SetupStep>,
    percent: u8,
    rclone: RcloneState,
    client: GoogleClientState,
    remotes: GoogleRemotesState,
    directory_decided: bool,
) -> bool {
    &&& steps.len() == 3
    &&& steps[0].title@ == "Install Rclone"@
    &&& steps[0].complete == (rclone is Ready)
    &&& steps[0].state_label@ == match rclone {
        RcloneState::Initializing => "In progress"@,
        RcloneState::Ready(_) => "Complete"@,
        RcloneState::Error(_) => "Needs attention"@,
    }
    &&& steps[0].description@ == match rclone {
        RcloneState::Initializing => "BOREAL is installing and verifying its private Rclone binary."@,
        RcloneState::Ready(status) => status.version@ + " is installed and ready."@,
        RcloneState::Error(e) => "Rclone setup failed: "@ + e@,
    }
    &&& steps[0].disabled
    &&& steps[1].title@ == "Configure Google Client ID"@
    &&& steps[1].complete == (client is Ready)
    &&& steps[1].state_label@ == match client {
        GoogleClientState::NotConfigured => "Set up"@,
        GoogleClientState::Ready(_) => "Complete"@,
        GoogleClientState::Error(_) => "Fix setup"@,
    }
    &&& steps[1].disabled == (client is Ready)
    &&& steps[1].modal_target@ == (if client is Ready {
        ""@
    } else {
        "googleClientSetupModal"@
    })
    &&& steps[2].title@ == "Configure My Drive Read-Only Remote"@
    &&& steps[2].complete == (remotes.ro is Ready)
    &&& steps[2].action@ == (if remotes.ro is Ready {
        ""@
    } else {
        "/setup/remotes/my-drive-ro"@
    })
    &&& steps[2].disabled == remote_setup_disabled(rclone, client, remotes.ro)
    &&& steps[2].detail@ == match remotes.ro {
        RemoteState::Conflict(e) => e@,
        RemoteState::Error(e) => e@,
        RemoteState::Configuring => "Complete the Google authorization in the browser tab opened by Rclone."@,
        _ => Seq::empty(),
    }
    &&& percent as nat == setup_percent_of(steps, directory_decided)
}

/// The setup checklist of the dashboard and its completion percentage.
pub fn build_setup_progress(
    rclone_state: &RcloneState,
    google_client_state: &GoogleClientState,
    google_remotes_state: &GoogleRemotesState,
    directory_setup_decided: bool,
) -> (result: (Vec<SetupStep>, u8))
    ensures
        setup_shown(result.0@, result.1, *rclone_state, *google_client_state, *google_remotes_state, directory_setup_decided),
{
    let rclone_step = match rclone_state {
        RcloneState::Initializing => SetupStep {
            icon: "bi-hourglass-split",
            title: "Install Rclone",
            description: string_from("BOREAL is installing and verifying its private Rclone binary."),
            state_label: "In progress",
            state_class: "text-bg-warning",
            complete: false,
            modal_target: "",
            action: "",
            disabled: true,
            detail: String::new(),
        },
        RcloneState::Ready(status) => {
            let mut v = chars_of(status.version.as_str());
            push_str(&mut v, " is installed and ready.");
            SetupStep {
                icon: "bi-check-circle-fill",
                title: "Install Rclone",
                description: string_of(v.as_slice()),
                state_label: "Complete",
                state_class: "text-bg-success",
                complete: true,
                modal_target: "",
                action: "",
                disabled: true,
                detail: String::new(),
            }
        },
        RcloneState::Error(error) => SetupStep {
            icon: "bi-exclamation-triangle-fill",
            title: "Install Rclone",
            description: joined("Rclone setup failed: ", error),
            state_label: "Needs attention",
            state_class: "text-bg-danger",
            complete: false,
            modal_target: "",
            action: "",
            disabled: true,
            detail: String::new(),
        },
    };
    let google_step = match google_client_state {
        GoogleClientState::NotConfigured => SetupStep {
            icon: "bi-key",
            title: "Configure Google Client ID",
            description: string_from(
                "Enable the Google Drive API, create a Desktop OAuth client, and import its JSON file.",
            ),
            state_label: "Set up",
            state_class: "text-bg-warning",
            complete: false,
            modal_target: "googleClientSetupModal",
            action: "",
            disabled: false,
            detail: String::new(),
        },
        GoogleClientState::Ready(_) => SetupStep {
            icon: "bi-check-circle-fill",
            title: "Configure Google Client ID",
            description: string_from(
                "Google Desktop OAuth credentials are stored in BOREAL's private conf directory.",
            ),
            state_label: "Complete",
            state_class: "text-bg-success",
            complete: true,
            modal_target: "",
            action: "",
            disabled: true,
            detail: String::new(),
        },
        GoogleClientState::Error(error) => SetupStep {
            icon: "bi-exclamation-triangle-fill",
            title: "Configure Google Client ID",
            description: joined("The saved credentials are invalid: ", error),
            state_label: "Fix setup",
            state_class: "text-bg-danger",
            complete: false,
            modal_target: "googleClientSetupModal",
            action: "",
            disabled: false,
            detail: String::new(),
        },
    };
    let ro = &google_remotes_state.ro;
    let remote_complete = match ro {
        RemoteState::Ready => true,
        _ => false,
    };
    let remote_busy = match ro {
        RemoteState::Configuring => true,
        _ => false,
    };
    let settled = match ro {
        RemoteState::Ready | RemoteState::Conflict(_) => true,
        _ => false,
    };
    let prerequisites_ready = match (rclone_state, google_client_state) {
        (RcloneState::Ready(_), GoogleClientState::Ready(_)) => true,
        _ => false,
    };
    let detail = match ro {
        RemoteState::Conflict(error) => error.clone(),
        RemoteState::Error(error) => error.clone(),
        RemoteState::Configuring => string_from(
            "Complete the Google authorization in the browser tab opened by Rclone.",
        ),
        _ => String::new(),
    };
    let remote_step = SetupStep {
        icon: if remote_complete { "bi-check-circle-fill" } else { "bi-cloud-plus" },
        title: "Configure My Drive Read-Only Remote",
        description: string_from(
            "Authorize a read-only Google Drive connection for inventory and exploration. Google opens a browser tab for authorization.",
        ),
        state_label: if remote_complete { "Complete" } else { "Set up" },
        state_class: if remote_complete { "text-bg-success" } else { "text-bg-warning" },
        complete: remote_complete,
        modal_target: "",
        action: if remote_complete { "" } else { "/setup/remotes/my-drive-ro" },
        disabled: !prerequisites_ready || remote_busy || settled,
        detail,
    };
    let done: usize = (if rclone_step.complete { 1 } else { 0 }) + (if google_step.complete { 1 } else { 0 }) + (
    if remote_step.complete { 1 } else { 0 }) + (if directory_setup_decided { 1 } else { 0 });
    let percent = (done * 100 / 4) as u8;
    let steps = vec![rclone_step, google_step, remote_step];
    (steps, percent)
}

} // verus!
