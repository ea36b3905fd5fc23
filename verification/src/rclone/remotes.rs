//! The two Google Drive remotes BOREAL keeps in its Rclone configuration,
//! and how an existing remote is judged.
use vstd::prelude::*;

use crate::json::{
    JsonValue,
    get_str,
    member,
    text_of,
};
use crate::text::{
    chars_of,
    push_str,
    string_of,
    trim,
    trim_chars,
};

verus! {

#[derive(Debug, Clone, Copy, PartialEq, Eq, Structural)]
pub enum RemoteKind {
    MyDriveRw,
    MyDriveRo,
}

pub open spec fn kind_name(kind: RemoteKind) -> Seq<char> {
    match kind {
        RemoteKind::MyDriveRw => seq!['m', 'y', '-', 'd', 'r', 'i', 'v', 'e', '-', 'r', 'w'],
        RemoteKind::MyDriveRo => seq!['m', 'y', '-', 'd', 'r', 'i', 'v', 'e', '-', 'r', 'o'],
    }
}

/// How the interface names a remote.
pub open spec fn kind_label(kind: RemoteKind) -> Seq<char> {
    match kind {
        RemoteKind::MyDriveRw => "My Drive RW"@,
        RemoteKind::MyDriveRo => "My Drive RO"@,
    }
}

pub open spec fn kind_scope(kind: RemoteKind) -> Seq<char> {
    match kind {
        RemoteKind::MyDriveRw => seq!['d', 'r', 'i', 'v', 'e'],
        RemoteKind::MyDriveRo => seq![
            'd',
            'r',
            'i',
            'v',
            'e',
            '.',
            'r',
            'e',
            'a',
            'd',
            'o',
            'n',
            'l',
            'y',
        ],
    }
}

impl RemoteKind {
    /// The remote's section name in the Rclone configuration.
    pub fn name(self) -> (result: &'static str)
        ensures
            result@ == kind_name(self),
    {
        proof {
            reveal_strlit("my-drive-rw");
            reveal_strlit("my-drive-ro");
        }
        match self {
            RemoteKind::MyDriveRw => "my-drive-rw",
            RemoteKind::MyDriveRo => "my-drive-ro",
        }
    }

    pub fn label(self) -> (result: &'static str)
        ensures
            result@ == kind_label(self),
    {
        match self {
            RemoteKind::MyDriveRw => "My Drive RW",
            RemoteKind::MyDriveRo => "My Drive RO",
        }
    }

    /// The OAuth scope the remote is created with.
    pub fn scope(self) -> (result: &'static str)
        ensures
            result@ == kind_scope(self),
    {
        proof {
            reveal_strlit("drive");
            reveal_strlit("drive.readonly");
        }
        match self {
            RemoteKind::MyDriveRw => "drive",
            RemoteKind::MyDriveRo => "drive.readonly",
        }
    }
}

#[derive(Debug, Clone)]
pub enum RemoteState {
    Waiting,
    NotConfigured,
    Configuring,
    Ready,
    Conflict(String),
    Error(String),
}

/// What an inspection of the configuration found.
#[derive(Debug, Clone, Copy, PartialEq, Eq, Structural)]
pub enum DetectedRemote {
    Missing,
    NeedsAuthorization,
    Ready,
}

/// A remote whose setting differs from what BOREAL needs.
#[derive(Debug, Clone)]
pub struct RemoteConflict {
    pub remote: String,
    pub key: String,
    pub actual: String,
    pub expected: String,
}

impl RemoteConflict {
    pub fn message(&self) -> (result: String)
        ensures
            result@ == "Remote '"@ + self.remote@ + "' has "@ + self.key@ + "='"@ + self.actual@
                + "', expected '"@ + self.expected@ + "'"@,
    {
        let mut text: Vec<char> = Vec::new();
        push_str(&mut text, "Remote '");
        push_str(&mut text, self.remote.as_str());
        push_str(&mut text, "' has ");
        push_str(&mut text, self.key.as_str());
        push_str(&mut text, "='");
        push_str(&mut text, self.actual.as_str());
        push_str(&mut text, "', expected '");
        push_str(&mut text, self.expected.as_str());
        push_str(&mut text, "'");
        assert(text@ =~= "Remote '"@ + self.remote@ + "' has "@ + self.key@ + "='"@ + self.actual@
            + "', expected '"@ + self.expected@ + "'"@);
        string_of(text.as_slice())
    }
}

/// A setting's text; absent and non-text settings read as empty.
pub open spec fn setting_text(remote: JsonValue, key: Seq<char>) -> Seq<char> {
    match text_of(member(remote, key)) {
        Some(t) => t,
        None => seq![],
    }
}

pub open spec fn type_key() -> Seq<char> {
    seq!['t', 'y', 'p', 'e']
}

pub open spec fn scope_key() -> Seq<char> {
    seq!['s', 'c', 'o', 'p', 'e']
}

pub open spec fn client_id_key() -> Seq<char> {
    seq!['c', 'l', 'i', 'e', 'n', 't', '_', 'i', 'd']
}

pub open spec fn token_key() -> Seq<char> {
    seq!['t', 'o', 'k', 'e', 'n']
}

fn check_value(remote: &JsonValue, key: &str, expected: &str, kind: RemoteKind) -> (result: Result<
    (),
    RemoteConflict,
>)
    ensures
        result is Ok <==> setting_text(*remote, key@) == expected@,
        result matches Err(c) ==> c.key@ == key@ && c.expected@ == expected@ && c.actual@
            == setting_text(*remote, key@) && c.remote@ == kind_name(kind),
{
    let actual = match get_str(remote, key) {
        Some(t) => t.clone(),
        None => String::new(),
    };
    let a = chars_of(actual.as_str());
    if crate::text::equals_str(a.as_slice(), expected) {
        Ok(())
    } else {
        Err(
            RemoteConflict {
                remote: crate::text::string_from(kind.name()),
                key: crate::text::string_from(key),
                actual,
                expected: crate::text::string_from(expected),
            },
        )
    }
}

/// Judges an existing remote: its type must be `drive`, its scope the
/// kind's scope, and its client id the configured one (checked in that
/// order); it is ready when it holds a non-blank token.
pub fn classify_remote(remote: &JsonValue, client_id: &str, kind: RemoteKind) -> (result: Result<
    DetectedRemote,
    RemoteConflict,
>)
    ensures
        setting_text(*remote, type_key()) != seq!['d', 'r', 'i', 'v', 'e'] ==> (result matches Err(
            c,
        ) && c.key@ == type_key()),
        setting_text(*remote, type_key()) == seq!['d', 'r', 'i', 'v', 'e'] && setting_text(
            *remote,
            scope_key(),
        ) != kind_scope(kind) ==> (result matches Err(c) && c.key@ == scope_key() && c.expected@
            == kind_scope(kind)),
        setting_text(*remote, type_key()) == seq!['d', 'r', 'i', 'v', 'e'] && setting_text(
            *remote,
            scope_key(),
        ) == kind_scope(kind) && setting_text(*remote, client_id_key()) != client_id@ ==> (result matches Err(
            c,
        ) && c.key@ == client_id_key()),
        setting_text(*remote, type_key()) == seq!['d', 'r', 'i', 'v', 'e'] && setting_text(
            *remote,
            scope_key(),
        ) == kind_scope(kind) && setting_text(*remote, client_id_key()) == client_id@ ==> result
            == Ok::<DetectedRemote, RemoteConflict>(
            if text_of(member(*remote, token_key())) matches Some(t) && trim(t).len() > 0 {
                DetectedRemote::Ready
            } else {
                DetectedRemote::NeedsAuthorization
            },
        ),
{
    proof {
        reveal_strlit("type");
        reveal_strlit("drive");
        reveal_strlit("scope");
        reveal_strlit("client_id");
        reveal_strlit("token");
        assert("type"@ =~= type_key());
        assert("drive"@ =~= seq!['d', 'r', 'i', 'v', 'e']);
        assert("scope"@ =~= scope_key());
        assert("client_id"@ =~= client_id_key());
        assert("token"@ =~= token_key());
    }
    check_value(remote, "type", "drive", kind)?;
    check_value(remote, "scope", kind.scope(), kind)?;
    check_value(remote, "client_id", client_id, kind)?;
    match get_str(remote, "token") {
        Some(token) => {
            let t = crate::text::trim_str(token.as_str());
            if t.len() > 0 {
                Ok(DetectedRemote::Ready)
            } else {
                Ok(DetectedRemote::NeedsAuthorization)
            }
        },
        None => Ok(DetectedRemote::NeedsAuthorization),
    }
}

/// The state shown for a remote after an inspection: missing or
/// unauthorized remotes are not configured, conflicts carry their message.
pub fn detected_state(inspection: Result<DetectedRemote, String>) -> (result: RemoteState)
    ensures
        inspection matches Ok(DetectedRemote::Ready) ==> result is Ready,
        inspection matches Ok(DetectedRemote::Missing) ==> result is NotConfigured,
        inspection matches Ok(DetectedRemote::NeedsAuthorization) ==> result is NotConfigured,
        inspection matches Err(m) ==> (result matches RemoteState::Conflict(n) && n@ == m@),
{
    match inspection {
        Ok(DetectedRemote::Missing) | Ok(DetectedRemote::NeedsAuthorization) => RemoteState::NotConfigured,
        Ok(DetectedRemote::Ready) => RemoteState::Ready,
        Err(message) => RemoteState::Conflict(message),
    }
}


/// The Rclone arguments that set a remote up: a new remote is created with
/// BOREAL's OAuth client and the remote's scope; an existing one is
/// reauthorized.  A ready remote needs nothing.
pub open spec fn configure_arguments_are(
    args: Seq<Seq<char>>,
    kind: RemoteKind,
    detected: DetectedRemote,
    client_id: Seq<char>,
    client_secret: Seq<char>,
    config_path: Seq<char>,
) -> bool {
    match detected {
        DetectedRemote::Missing => args == seq![
            "config"@,
            "create"@,
            kind_name(kind),
            "drive"@,
            "client_id"@,
            client_id,
            "client_secret"@,
            client_secret,
            "scope"@,
            kind_scope(kind),
            "--config"@,
            config_path,
        ],
        DetectedRemote::NeedsAuthorization => args == seq![
            "config"@,
            "reconnect"@,
            kind_name(kind) + ":"@,
            "--config"@,
            config_path,
        ],
        DetectedRemote::Ready => false,
    }
}

/// The Rclone arguments that set a remote up, or nothing when it is ready.
pub fn configure_arguments(
    kind: RemoteKind,
    detected: DetectedRemote,
    client_id: &str,
    client_secret: &str,
    config_path: &str,
) -> (result: Option<Vec<String>>)
    ensures
        detected == DetectedRemote::Ready <==> result is None,
        result matches Some(args) ==> configure_arguments_are(
            args@.map_values(|a: String| a@),
            kind,
            detected,
            client_id@,
            client_secret@,
            config_path@,
        ),
{
    match detected {
        DetectedRemote::Ready => None,
        DetectedRemote::Missing => {
            let args = vec![
                crate::text::string_from("config"),
                crate::text::string_from("create"),
                crate::text::string_from(kind.name()),
                crate::text::string_from("drive"),
                crate::text::string_from("client_id"),
                crate::text::string_from(client_id),
                crate::text::string_from("client_secret"),
                crate::text::string_from(client_secret),
                crate::text::string_from("scope"),
                crate::text::string_from(kind.scope()),
                crate::text::string_from("--config"),
                crate::text::string_from(config_path),
            ];
            assert(args@.map_values(|a: String| a@) =~= seq![
                "config"@,
                "create"@,
                kind_name(kind),
                "drive"@,
                "client_id"@,
                client_id@,
                "client_secret"@,
                client_secret@,
                "scope"@,
                kind_scope(kind),
                "--config"@,
                config_path@,
            ]);
            Some(args)
        },
        DetectedRemote::NeedsAuthorization => {
            let mut target = chars_of(kind.name());
            target.push(':');
            let args = vec![
                crate::text::string_from("config"),
                crate::text::string_from("reconnect"),
                string_of(target.as_slice()),
                crate::text::string_from("--config"),
                crate::text::string_from(config_path),
            ];
            proof {
                reveal_strlit(":");
                assert(":"@ =~= seq![':']);
                assert(target@ =~= kind_name(kind) + ":"@);
                assert(args@[2]@ == kind_name(kind) + ":"@);
            }
            assert(args@.map_values(|a: String| a@) =~= seq![
                "config"@,
                "reconnect"@,
                kind_name(kind) + ":"@,
                "--config"@,
                config_path@,
            ]);
            Some(args)
        },
    }
}

/// Why Rclone could not set a remote up.
pub fn configure_error(kind: RemoteKind, stderr: &str) -> (message: String)
    ensures
        message@ == "Rclone could not configure "@ + kind_label(kind) + ": "@ + trim(stderr@),
{
    let mut v = chars_of("Rclone could not configure ");
    push_str(&mut v, kind.label());
    push_str(&mut v, ": ");
    crate::text::push_chars(&mut v, crate::text::trim_str(stderr).as_slice());
    string_of(v.as_slice())
}

/// What is said when setup ends without a usable remote.
pub fn unusable_remote_message(kind: RemoteKind) -> (message: String)
    ensures
        message@ == "Rclone finished without a usable "@ + kind_label(kind) + " remote"@,
{
    let mut v = chars_of("Rclone finished without a usable ");
    push_str(&mut v, kind.label());
    push_str(&mut v, " remote");
    string_of(v.as_slice())
}

/// Why the configuration could not be read.
pub fn inspection_error(stderr: &str) -> (message: String)
    ensures
        message@ == "Unable to inspect Rclone remotes: "@ + trim(stderr@),
{
    let mut v = chars_of("Unable to inspect Rclone remotes: ");
    crate::text::push_chars(&mut v, crate::text::trim_str(stderr).as_slice());
    string_of(v.as_slice())
}

} // verus!
