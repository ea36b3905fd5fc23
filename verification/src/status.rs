//! The status bar at the top of every page, and when pages keep polling
//! for it.
use vstd::prelude::*;

use crate::metadata::{GoogleClientState, GoogleRemotesState, RcloneState};
use crate::rclone::remotes::RemoteState;
use crate::text::{chars_of, decimal, push_decimal, push_str, starts_with, string_from, string_of};
use crate::views::{
    build_download_status_item, download_status_class, download_status_value, DownloadState, MetadataState,
    StatusItem,
};

verus! {

/// What the last check for a newer BOREAL found.
#[derive(Debug, Clone)]
pub enum UpdateState {
    Checking,
    Current,
    Available { version: String },
    Error(String),
}

/// The version shown for BOREAL: `v`, the version, and its release
/// maturity in brackets.
pub fn boreal_version_label(version: &str, maturity: &str) -> (label: String)
    ensures
        label@ == "v"@ + version@ + " ("@ + maturity@ + ")"@,
{
    let mut v = chars_of("v");
    push_str(&mut v, version);
    push_str(&mut v, " (");
    push_str(&mut v, maturity);
    push_str(&mut v, ")");
    string_of(v.as_slice())
}

/// Where the Rclone web GUI answers, when Rclone is ready and runs it.
pub open spec fn gui_url_text(state: RcloneState) -> Seq<char> {
    match state {
        RcloneState::Ready(status) => match status.gui_url {
            Some(u) => u@,
            None => Seq::empty(),
        },
        _ => Seq::empty(),
    }
}

/// The Rclone web GUI's address, or nothing.
pub fn rclone_gui_url(rclone_state: &RcloneState) -> (url: String)
    ensures
        url@ == gui_url_text(*rclone_state),
{
    match rclone_state {
        RcloneState::Ready(status) => match &status.gui_url {
            Some(u) => string_from(u.as_str()),
            None => String::new(),
        },
        _ => String::new(),
    }
}

/// Pages poll while Rclone starts.
pub open spec fn polls_rclone(rclone_state: RcloneState) -> bool {
    rclone_state is Initializing
}

/// Setup pages also poll while the read-only remote is being configured.
pub open spec fn polls_setup(rclone_state: RcloneState, remotes: GoogleRemotesState) -> bool {
    polls_rclone(rclone_state) || remotes.ro is Configuring
}

/// Every page also polls while metadata is being updated.
pub open spec fn polls_ui(rclone_state: RcloneState, remotes: GoogleRemotesState, metadata: MetadataState) -> bool {
    polls_setup(rclone_state, remotes) || metadata is Updating
}

/// Whether pages should poll while Rclone starts.
pub fn should_poll_rclone(rclone_state: &RcloneState) -> (poll: bool)
    ensures
        poll == polls_rclone(*rclone_state),
{
    matches!(rclone_state, RcloneState::Initializing)
}

/// Whether setup pages should poll.
pub fn should_poll_setup(rclone_state: &RcloneState, remotes_state: &GoogleRemotesState) -> (poll: bool)
    ensures
        poll == polls_setup(*rclone_state, *remotes_state),
{
    should_poll_rclone(rclone_state) || matches!(remotes_state.ro, RemoteState::Configuring)
}

/// Whether every page should poll.
pub fn should_poll_ui(
    rclone_state: &RcloneState,
    remotes_state: &GoogleRemotesState,
    metadata_state: &MetadataState,
) -> (poll: bool)
    ensures
        poll == polls_ui(*rclone_state, *remotes_state, *metadata_state),
{
    should_poll_setup(rclone_state, remotes_state) || matches!(metadata_state, MetadataState::Updating(_))
}

/// The Rclone entry's text and colour: its version without the `rclone `
/// prefix once ready.
pub open spec fn rclone_status_value(state: RcloneState) -> (Seq<char>, Seq<char>) {
    match state {
        RcloneState::Initializing => ("Initializing..."@, "text-warning"@),
        RcloneState::Ready(status) => (
            if starts_with(status.version@, "rclone "@) {
                status.version@.subrange(7, status.version@.len() as int)
            } else {
                status.version@
            },
            "text-success"@,
        ),
        RcloneState::Error(_) => ("Unavailable"@, "text-danger"@),
    }
}

/// The OAuth client entry's text and colour.
pub open spec fn client_status_value(state: GoogleClientState) -> (Seq<char>, Seq<char>) {
    match state {
        GoogleClientState::NotConfigured => ("Not configured"@, "text-warning"@),
        GoogleClientState::Ready(_) => ("Configured"@, "text-success"@),
        GoogleClientState::Error(_) => ("Invalid"@, "text-danger"@),
    }
}

/// The metadata entry's text, colour and spinner: a synchronized inventory
/// shows its age, counted by the page from `00:00:00`.
pub open spec fn metadata_status_value(state: MetadataState) -> (Seq<char>, Seq<char>, bool) {
    match state {
        MetadataState::NotSynchronized => ("Not synchronized"@, "text-warning"@, false),
        MetadataState::Updating(progress) => (progress.phase@, "text-primary"@, true),
        MetadataState::Synchronized(_) => ("00:00:00"@, "boreal-metadata-age text-success"@, false),
        MetadataState::Error(_) => ("Update failed"@, "text-danger"@, false),
    }
}

/// The title of the BOREAL entry.
pub open spec fn update_title(state: UpdateState) -> Seq<char> {
    match state {
        UpdateState::Available { version } => "BOREAL v"@ + version@ + " is available"@,
        UpdateState::Checking => "Checking for BOREAL updates"@,
        UpdateState::Current => "BOREAL is up to date. Open Update page."@,
        UpdateState::Error(_) => "Open the Update page to retry the version check"@,
    }
}

/// One status entry with these fields.
pub open spec fn item_is(
    item: StatusItem,
    icon: Seq<char>,
    label: Seq<char>,
    value: Seq<char>,
    value_class: Seq<char>,
    value_url: Seq<char>,
    spinner: bool,
    age_timestamp: Seq<char>,
    title: Seq<char>,
) -> bool {
    &&& item.icon@ == icon
    &&& item.label@ == label
    &&& item.value@ == value
    &&& item.value_class@ == value_class
    &&& item.value_url@ == value_url
    &&& item.spinner == spinner
    &&& item.age_timestamp@ == age_timestamp
    &&& item.title@ == title
}

/// The status bar: Rclone, the Google account, the OAuth client, the
/// remotes, the metadata inventory, the download, and BOREAL itself.
pub open spec fn status_items_are(
    items: Seq<StatusItem>,
    download_state: DownloadState,
    rclone_state: RcloneState,
    google_client_state: GoogleClientState,
    metadata_state: MetadataState,
    configured_remote_count: nat,
    google_account_email: Seq<char>,
    update_state: UpdateState,
    version_label: Seq<char>,
) -> bool {
    let rclone = rclone_status_value(rclone_state);
    let client = client_status_value(google_client_state);
    let metadata = metadata_status_value(metadata_state);
    &&& items.len() == 7
    &&& item_is(
        items[0],
        "bi-folder-symlink"@,
        "Rclone"@,
        rclone.0,
        rclone.1,
        gui_url_text(rclone_state),
        false,
        Seq::empty(),
        "Open Rclone WebGUI"@,
    )
    &&& item_is(
        items[1],
        "bi-google"@,
        "GDrive"@,
        if google_account_email.len() == 0 {
            "Not verified"@
        } else {
            google_account_email
        },
        if google_account_email.len() == 0 {
            "text-warning"@
        } else {
            "text-success"@
        },
        Seq::empty(),
        false,
        Seq::empty(),
        Seq::empty(),
    )
    &&& item_is(items[2], "bi-key"@, "ClientID"@, client.0, client.1, Seq::empty(), false, Seq::empty(), Seq::empty())
    &&& item_is(
        items[3],
        "bi-cloud"@,
        "Remotes"@,
        decimal(configured_remote_count) + " configured"@,
        if configured_remote_count == 0 {
            "text-warning"@
        } else {
            "text-success"@
        },
        Seq::empty(),
        false,
        Seq::empty(),
        Seq::empty(),
    )
    &&& item_is(
        items[4],
        "bi-database"@,
        "Metadata"@,
        metadata.0,
        metadata.1,
        Seq::empty(),
        metadata.2,
        match metadata_state {
            MetadataState::Synchronized(summary) => summary.completed_at@,
            _ => Seq::empty(),
        },
        Seq::empty(),
    )
    &&& item_is(
        items[5],
        "bi-download"@,
        "Download"@,
        download_status_value(download_state),
        download_status_class(download_state),
        Seq::empty(),
        download_state is Running,
        Seq::empty(),
        Seq::empty(),
    )
    &&& item_is(
        items[6],
        "bi-info-circle"@,
        "BOREAL"@,
        version_label,
        if update_state is Available {
            "text-warning fw-semibold"@
        } else {
            "text-success"@
        },
        "/update"@,
        false,
        Seq::empty(),
        update_title(update_state),
    )
}

fn rclone_value(rclone_state: &RcloneState) -> (result: (String, &'static str))
    ensures
        result.0@ == rclone_status_value(*rclone_state).0,
        result.1@ == rclone_status_value(*rclone_state).1,
{
    match rclone_state {
        RcloneState::Initializing => (string_from("Initializing..."), "text-warning"),
        RcloneState::Ready(status) => {
            let v = chars_of(status.version.as_str());
            let prefixed = crate::text::starts_with_str(v.as_slice(), "rclone ");
            proof {
                reveal_strlit("rclone ");
            }
            let text = if prefixed {
                crate::text::slice_range(v.as_slice(), 7, v.len())
            } else {
                v
            };
            (string_of(text.as_slice()), "text-success")
        },
        RcloneState::Error(_) => (string_from("Unavailable"), "text-danger"),
    }
}

fn metadata_value(metadata_state: &MetadataState) -> (result: (String, &'static str, bool, String))
    ensures
        result.0@ == metadata_status_value(*metadata_state).0,
        result.1@ == metadata_status_value(*metadata_state).1,
        result.2 == metadata_status_value(*metadata_state).2,
        result.3@ == match *metadata_state {
            MetadataState::Synchronized(summary) => summary.completed_at@,
            _ => Seq::empty(),
        },
{
    match metadata_state {
        MetadataState::NotSynchronized => (string_from("Not synchronized"), "text-warning", false, String::new()),
        MetadataState::Updating(progress) => (
            string_from(progress.phase.as_str()),
            "text-primary",
            true,
            String::new(),
        ),
        MetadataState::Synchronized(summary) => (
            string_from("00:00:00"),
            "boreal-metadata-age text-success",
            false,
            string_from(summary.completed_at.as_str()),
        ),
        MetadataState::Error(_) => (string_from("Update failed"), "text-danger", false, String::new()),
    }
}

fn update_title_of(update_state: &UpdateState) -> (title: String)
    ensures
        title@ == update_title(*update_state),
{
    match update_state {
        UpdateState::Available { version } => {
            let mut v = chars_of("BOREAL v");
            push_str(&mut v, version.as_str());
            push_str(&mut v, " is available");
            string_of(v.as_slice())
        },
        UpdateState::Checking => string_from("Checking for BOREAL updates"),
        UpdateState::Current => string_from("BOREAL is up to date. Open Update page."),
        UpdateState::Error(_) => string_from("Open the Update page to retry the version check"),
    }
}

fn plain_item(icon: &'static str, label: &'static str, value: String, value_class: &'static str) -> (item: StatusItem)
    ensures
        item_is(item, icon@, label@, value@, value_class@, Seq::empty(), false, Seq::empty(), Seq::empty()),
{
    StatusItem {
        icon,
        label,
        value,
        value_class,
        value_url: String::new(),
        spinner: false,
        age_timestamp: String::new(),
        title: String::new(),
    }
}

/// The status bar's entries.  `version_label` is BOREAL's own version
/// (`boreal_version_label`); the remotes state does not change the bar.
pub fn build_status_items(
    download_state: &DownloadState,
    rclone_state: &RcloneState,
    google_client_state: &GoogleClientState,
    google_remotes_state: &GoogleRemotesState,
    metadata_state: &MetadataState,
    configured_remote_count: usize,
    google_account_email: String,
    update_state: &UpdateState,
    version_label: &str,
) -> (items: Vec<StatusItem>)
    ensures
        status_items_are(
            items@,
            *download_state,
            *rclone_state,
            *google_client_state,
            *metadata_state,
            configured_remote_count as nat,
            google_account_email@,
            *update_state,
            version_label@,
        ),
{
    let (rclone_text, rclone_class) = rclone_value(rclone_state);
    let (client_text, client_class): (String, &'static str) = match google_client_state {
        GoogleClientState::NotConfigured => (string_from("Not configured"), "text-warning"),
        GoogleClientState::Ready(_) => (string_from("Configured"), "text-success"),
        GoogleClientState::Error(_) => (string_from("Invalid"), "text-danger"),
    };
    let mut remotes = Vec::new();
    push_decimal(&mut remotes, configured_remote_count as u64);
    push_str(&mut remotes, " configured");
    let remote_class = if configured_remote_count == 0 {
        "text-warning"
    } else {
        "text-success"
    };
    let no_email = chars_of(google_account_email.as_str()).len() == 0;
    let (account_text, account_class) = if no_email {
        (string_from("Not verified"), "text-warning")
    } else {
        (google_account_email, "text-success")
    };
    let (metadata_text, metadata_class, metadata_spinner, age) = metadata_value(metadata_state);
    let items = vec![
        StatusItem {
            icon: "bi-folder-symlink",
            label: "Rclone",
            value: rclone_text,
            value_class: rclone_class,
            value_url: rclone_gui_url(rclone_state),
            spinner: false,
            age_timestamp: String::new(),
            title: string_from("Open Rclone WebGUI"),
        },
        plain_item("bi-google", "GDrive", account_text, account_class),
        plain_item("bi-key", "ClientID", client_text, client_class),
        plain_item("bi-cloud", "Remotes", string_of(remotes.as_slice()), remote_class),
        StatusItem {
            icon: "bi-database",
            label: "Metadata",
            value: metadata_text,
            value_class: metadata_class,
            value_url: String::new(),
            spinner: metadata_spinner,
            age_timestamp: age,
            title: String::new(),
        },
        build_download_status_item(download_state),
        StatusItem {
            icon: "bi-info-circle",
            label: "BOREAL",
            value: string_from(version_label),
            value_class: if matches!(update_state, UpdateState::Available { .. }) {
                "text-warning fw-semibold"
            } else {
                "text-success"
            },
            value_url: string_from("/update"),
            spinner: false,
            age_timestamp: String::new(),
            title: update_title_of(update_state),
        },
    ];
    proof {
        assert(items@[5].value_url@ =~= Seq::<char>::empty());
        assert(items@[5].age_timestamp@ =~= Seq::<char>::empty());
        assert(items@[5].title@ =~= Seq::<char>::empty());
        let rclone = rclone_status_value(*rclone_state);
        assert(item_is(items@[0], "bi-folder-symlink"@, "Rclone"@, rclone.0, rclone.1, gui_url_text(*rclone_state), false, Seq::empty(), "Open Rclone WebGUI"@));
        assert(items@[3].value@ == decimal(configured_remote_count as nat) + " configured"@);
        assert(items@[6].title@ == update_title(*update_state));
    }
    items
}

} // verus!
