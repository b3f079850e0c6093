//! The tool's files: what each file operation decides from what the file
//! system reported, and which writes keep the active login and profiles in
//! step.
use vstd::prelude::*;
use crate::config::{file_credentials, has_file_credentials};
use crate::names::{NAME_RULE, is_name_char, valid_profile_name, validate_name};
use crate::paths::{Paths, PathsView, auth_path, profile_path, state_path};
use crate::text::{append_str, back_spaces, chars_of, decimal, decimal_string, skip_spaces, string_of_range, trim, trim_end, trim_start};

verus! {

/// What reading a text file gave.
pub enum FileText {
    Text(String),
    NotFound,
    Failed(String),
}

/// What removing a file gave.
pub enum RemoveOutcome {
    Removed,
    NotFound,
    Failed(String),
}

/// A change to a file: replace it atomically with content and permissions,
/// or remove it if it is there.
pub enum FileAction {
    Write { path: String, content: Vec<u8>, mode: u32 },
    RemoveIfExists { path: String },
}

/// A file change, with text as character sequences.
pub enum FileActionView {
    Write { path: Seq<char>, content: Seq<u8>, mode: u32 },
    RemoveIfExists { path: Seq<char> },
}

impl View for FileAction {
    type V = FileActionView;

    open spec fn view(&self) -> FileActionView {
        match self {
            FileAction::Write { path, content, mode } => FileActionView::Write {
                path: path@,
                content: content@,
                mode: *mode,
            },
            FileAction::RemoveIfExists { path } => FileActionView::RemoveIfExists { path: path@ },
        }
    }
}

/// The permissions of the tool's files: read and write for the owner only.
pub const FILE_MODE: u32 = 0o600;

/// The permissions of the tool's directories.
pub const DIR_MODE: u32 = 0o700;

/// The active profile as its state file gives it: the name in the file
/// (surrounding whitespace removed), none for an empty or missing file; a
/// name that is no valid profile name, or a read that failed, is an error.
pub open spec fn active_of(read: FileText) -> Result<Option<Seq<char>>, Seq<char>> {
    match read {
        FileText::Text(t) => {
            let name = trim(t@);
            if name.len() == 0 {
                Ok(None)
            } else if valid_profile_name(name) {
                Ok(Some(name))
            } else {
                Err(NAME_RULE@)
            }
        },
        FileText::NotFound => Ok(None),
        FileText::Failed(e) => Err("cannot read active profile: "@ + e@),
    }
}

/// The active profile, from what reading the state file gave.
pub fn read_active(read: FileText) -> (r: Result<Option<String>, String>)
    ensures
        match (r, active_of(read)) {
            (Ok(Some(a)), Ok(Some(b))) => a@ == b,
            (Ok(None), Ok(None)) => true,
            (Err(e), Err(m)) => e@ == m,
            _ => false,
        },
{
    match read {
        FileText::Text(t) => {
            let v = chars_of(t.as_str());
            let a = skip_spaces(&v, 0, v.len());
            let b = back_spaces(&v, a, v.len());
            assert(v@.subrange(0, v@.len() as int) == v@);
            assert(v@.subrange(a as int, v@.len() as int) == trim_start(t@));
            let name = string_of_range(&v, a, b);
            assert(name@ == trim(t@));
            if a == b {
                return Ok(None);
            }
            match validate_name(name.as_str()) {
                Ok(()) => Ok(Some(name)),
                Err(e) => Err(e),
            }
        },
        FileText::NotFound => Ok(None),
        FileText::Failed(e) => {
            let mut m = String::from_str("cannot read active profile: ");
            append_str(&mut m, e.as_str());
            Err(m)
        },
    }
}

/// How the state file records the active profile: `<name>` and a line
/// break, or no file when none is active.
pub open spec fn active_write(p: PathsView, name: Option<Seq<char>>) -> FileActionView {
    match name {
        Some(n) => FileActionView::Write {
            path: state_path(p),
            content: vstd::utf8::encode_utf8(n.push('\n')),
            mode: FILE_MODE,
        },
        None => FileActionView::RemoveIfExists { path: state_path(p) },
    }
}

/// Records which profile is active.
pub fn write_active(paths: &Paths, name: Option<&str>) -> (r: FileAction)
    ensures
        r@ == active_write(
            paths@,
            match name {
                Some(n) => Some(n@),
                None => None,
            },
        ),
{
    match name {
        Some(n) => {
            let mut text = n.to_owned();
            append_str(&mut text, "\n");
            proof {
                reveal_strlit("\n");
                assert("\n"@ =~= seq!['\n']);
                assert(text@ =~= n@.push('\n'));
            }
            let content = text.as_str().as_bytes_vec();
            FileAction::Write { path: paths.state(), content, mode: FILE_MODE }
        },
        None => FileAction::RemoveIfExists { path: paths.state() },
    }
}

/// How the authentication cache is put back after a failed login: the
/// bytes it held, or no file when there was none.
pub open spec fn auth_restore(p: PathsView, content: Option<Seq<u8>>) -> FileActionView {
    match content {
        Some(bytes) => FileActionView::Write { path: auth_path(p), content: bytes, mode: FILE_MODE },
        None => FileActionView::RemoveIfExists { path: auth_path(p) },
    }
}

/// Puts the authentication cache back as it was.
pub fn restore_auth(paths: &Paths, content: Option<Vec<u8>>) -> (r: FileAction)
    ensures
        r@ == auth_restore(
            paths@,
            match content {
                Some(c) => Some(c@),
                None => None,
            },
        ),
{
    match content {
        Some(bytes) => FileAction::Write { path: paths.auth(), content: bytes, mode: FILE_MODE },
        None => FileAction::RemoveIfExists { path: paths.auth() },
    }
}

/// The copy that keeps the active profile current: the authentication
/// cache, when it is a valid login, goes back into the active profile's
/// file, so credentials Codex refreshed are not lost.
pub open spec fn active_save(p: PathsView, active: Option<Seq<char>>, auth_valid: bool) -> Option<(Seq<char>, Seq<char>)> {
    match active {
        Some(name) => if auth_valid {
            Some((auth_path(p), profile_path(p, name)))
        } else {
            None
        },
        None => None,
    }
}

/// The copy (source, destination) that saves the current login into the
/// active profile, if one is active and the login is valid.
pub fn save_active(paths: &Paths, active: Option<String>, auth_valid: bool) -> (r: Option<(String, String)>)
    ensures
        match (r, active_save(paths@, match active {
            Some(a) => Some(a@),
            None => None,
        }, auth_valid)) {
            (Some((a, b)), Some((c, d))) => a@ == c && b@ == d,
            (None, None) => true,
            _ => false,
        },
{
    match active {
        Some(name) => if auth_valid {
            Some((paths.auth(), paths.profile(name.as_str())))
        } else {
            None
        },
        None => None,
    }
}

/// The message when the tool is used before `init`.
pub const NOT_INITIALIZED: &'static str = "run 'codex-switcher init' first";

/// The tool is set up when the configuration selects file-based credential
/// storage (an unreadable configuration counts as empty).
pub fn ensure_initialized(config: &str) -> (r: Result<(), String>)
    ensures
        r is Ok <==> file_credentials(config@),
        r matches Err(e) ==> e@ == NOT_INITIALIZED@,
{
    if has_file_credentials(config) {
        Ok(())
    } else {
        Err(String::from_str(NOT_INITIALIZED))
    }
}

/// What the file system says of a path: whether it is a regular file, and
/// its length; or why it could not say.
pub enum Metadata {
    File { is_file: bool, len: u64 },
    Failed(String),
}

/// A saved login must be a non-empty regular file.
pub open spec fn auth_file_check(path: Seq<char>, meta: Metadata) -> Result<(), Seq<char>> {
    match meta {
        Metadata::Failed(e) => Err("cannot read "@ + path + ": "@ + e@),
        Metadata::File { is_file, len } => if !is_file || len == 0 {
            Err(path + " is not a non-empty file"@)
        } else {
            Ok(())
        },
    }
}

/// Whether the file at `path` can hold a login.
pub fn validate_auth_file(path: &str, meta: Metadata) -> (r: Result<(), String>)
    ensures
        match (r, auth_file_check(path@, meta)) {
            (Ok(()), Ok(())) => true,
            (Err(e), Err(m)) => e@ == m,
            _ => false,
        },
{
    match meta {
        Metadata::Failed(e) => {
            let mut m = String::from_str("cannot read ");
            append_str(&mut m, path);
            append_str(&mut m, ": ");
            append_str(&mut m, e.as_str());
            Err(m)
        },
        Metadata::File { is_file, len } => if !is_file || len == 0 {
            let mut m = path.to_owned();
            append_str(&mut m, " is not a non-empty file");
            Err(m)
        } else {
            Ok(())
        },
    }
}

/// Removing a file that is not there is no error.
pub fn remove_if_exists(path: &str, outcome: RemoveOutcome) -> (r: Result<(), String>)
    ensures
        match outcome {
            RemoveOutcome::Failed(e) => r matches Err(m) && m@ == "cannot remove "@ + path@ + ": "@ + e@,
            _ => r is Ok,
        },
{
    match outcome {
        RemoveOutcome::Failed(e) => {
            let mut m = String::from_str("cannot remove ");
            append_str(&mut m, path);
            append_str(&mut m, ": ");
            append_str(&mut m, e.as_str());
            Err(m)
        },
        _ => Ok(()),
    }
}

/// Setting the permissions of a path: an error names the path.
pub fn set_mode(path: &str, mode: u32, outcome: Result<(), String>) -> (r: Result<(), String>)
    ensures
        match outcome {
            Err(e) => r matches Err(m) && m@ == "cannot secure "@ + path@ + ": "@ + e@,
            Ok(()) => r is Ok,
        },
{
    match outcome {
        Err(e) => {
            let mut m = String::from_str("cannot secure ");
            append_str(&mut m, path);
            append_str(&mut m, ": ");
            append_str(&mut m, e.as_str());
            Err(m)
        },
        Ok(()) => Ok(()),
    }
}

/// The name of the temporary file an atomic write of `file_name` uses in
/// the same directory: `.<file_name>.<process id>.tmp`.
pub fn temporary_name(file_name: &str, process_id: u32) -> (r: String)
    ensures
        r@ == "."@ + file_name@ + "."@ + decimal(process_id as nat) + ".tmp"@,
{
    let mut r = String::from_str(".");
    append_str(&mut r, file_name);
    append_str(&mut r, ".");
    let id = decimal_string(process_id as u64);
    append_str(&mut r, id.as_str());
    append_str(&mut r, ".tmp");
    r
}

/// How many times the lock is tried before giving up (100 ms apart).
pub const LOCK_ATTEMPTS: u32 = 20;

/// What creating the lock file gave.
pub enum LockOutcome {
    Created,
    AlreadyExists,
    Failed(String),
}

/// What to do after an attempt to create the lock file.
pub enum LockDecision {
    Acquired,
    Retry,
    Fail(String),
}

/// The message when another operation holds the lock.
pub const LOCK_BUSY: &'static str = "another codex-switcher operation is running (remove ~/.codex-switcher/lock if it is stale)";

/// After attempt `attempt` (counting from 0): a created lock is held; a
/// lock that exists is tried again until the attempts run out; any other
/// failure ends the operation.
pub fn lock_decision(attempt: u32, outcome: LockOutcome) -> (r: LockDecision)
    ensures
        match outcome {
            LockOutcome::Created => r is Acquired,
            LockOutcome::AlreadyExists => if attempt + 1 < LOCK_ATTEMPTS {
                r is Retry
            } else {
                r matches LockDecision::Fail(m) && m@ == LOCK_BUSY@
            },
            LockOutcome::Failed(e) => r matches LockDecision::Fail(m) && m@
                == "cannot create operation lock: "@ + e@,
        },
{
    match outcome {
        LockOutcome::Created => LockDecision::Acquired,
        LockOutcome::AlreadyExists => if attempt < LOCK_ATTEMPTS - 1 {
            LockDecision::Retry
        } else {
            LockDecision::Fail(String::from_str(LOCK_BUSY))
        },
        LockOutcome::Failed(e) => {
            let mut m = String::from_str("cannot create operation lock: ");
            append_str(&mut m, e.as_str());
            LockDecision::Fail(m)
        },
    }
}


/// What is recorded as the active profile reads back as that profile: the
/// state file written for a valid name, read back as text, gives the name;
/// recording that none is active removes the file, and a missing file
/// reads as none.
pub proof fn law_active_round_trip(p: PathsView, name: Seq<char>, read: FileText)
    requires
        valid_profile_name(name),
        read matches FileText::Text(t) && vstd::utf8::encode_utf8(t@) == active_write(p, Some(name))->Write_content,
    ensures
        active_write(p, Some(name)) is Write,
        active_of(read) == Ok::<Option<Seq<char>>, Seq<char>>(Some(name)),
        active_write(p, None) == (FileActionView::RemoveIfExists { path: state_path(p) }),
        active_of(FileText::NotFound) == Ok::<Option<Seq<char>>, Seq<char>>(None),
{
    let t = match read {
        FileText::Text(t) => t@,
        _ => Seq::empty(),
    };
    let s = name.push('\n');
    vstd::utf8::encode_utf8_decode_utf8(t);
    vstd::utf8::encode_utf8_decode_utf8(s);
    assert(t == s);
    assert(name[0] == s[0]);
    assert(is_name_char(name[0]));
    assert(trim_start(s) == s);
    assert(s.drop_last() =~= name);
    assert(trim_end(s) == trim_end(name));
    assert(is_name_char(name.last()));
    assert(trim_end(name) == name);
}


/// The files after a change is carried out, each path mapped to its
/// bytes: a write replaces the file's bytes, a removal leaves no file.
pub open spec fn apply_action(files: Map<Seq<char>, Seq<u8>>, action: FileActionView) -> Map<
    Seq<char>,
    Seq<u8>,
> {
    match action {
        FileActionView::Write { path, content, .. } => files.insert(path, content),
        FileActionView::RemoveIfExists { path } => files.remove(path),
    }
}

/// Restoring the authentication cache puts back exactly what was read:
/// the bytes read, written owner-only, or no file when there was none; no
/// other file changes.
pub proof fn law_restore_puts_back(
    p: PathsView,
    files: Map<Seq<char>, Seq<u8>>,
    content: Option<Seq<u8>>,
)
    ensures
        ({
            let after = apply_action(files, auth_restore(p, content));
            &&& match content {
                Some(b) => after.dom().contains(auth_path(p)) && after[auth_path(p)] == b && (
                auth_restore(p, content) matches FileActionView::Write { mode, .. } && mode
                    == FILE_MODE),
                None => !after.dom().contains(auth_path(p)),
            }
            &&& forall|k: Seq<char>|
                k != auth_path(p) ==> (#[trigger] after.dom().contains(k) == files.dom().contains(
                    k,
                ) && (files.dom().contains(k) ==> after[k] == files[k]))
        }),
{
}

/// What is recorded as the active profile is what reads back: after
/// recording a valid name, the state file holds the name and a line
/// break, and any text whose encoding is those bytes reads back as the
/// name; after recording none, there is no state file, which reads as
/// none.
pub proof fn law_state_file_round_trip(
    p: PathsView,
    files: Map<Seq<char>, Seq<u8>>,
    name: Seq<char>,
    read: FileText,
)
    requires
        valid_profile_name(name),
        read matches FileText::Text(t) && vstd::utf8::encode_utf8(t@) == apply_action(
            files,
            active_write(p, Some(name)),
        )[state_path(p)],
    ensures
        apply_action(files, active_write(p, Some(name)))[state_path(p)] == vstd::utf8::encode_utf8(
            name.push('\n'),
        ),
        active_of(read) == Ok::<Option<Seq<char>>, Seq<char>>(Some(name)),
        !apply_action(files, active_write(p, None)).dom().contains(state_path(p)),
        active_of(FileText::NotFound) == Ok::<Option<Seq<char>>, Seq<char>>(None),
{
    law_active_round_trip(p, name, read);
}

} // verus!
