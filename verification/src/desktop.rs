//! The desktop front's form handling: validation of the form fields and conversion into the
//! shared requests, the rows of the active-volume table, and the window state that the
//! callbacks change.

use vstd::prelude::*;
use crate::api::{opt_text, ActiveVolume, CreateCommand, CreateCommandView, MountCommand, MountCommandView, OperationResponse, UnmountCommand, UnmountCommandView};
use crate::model::{spec_cipher, CreateCipher, SourceKind, VolumeType};
use crate::text::{chars_eq, concat2, str_eq, str_trim, string_from_chars, trim, push_str};

verus! {

broadcast use vstd::string::group_string_axioms;

/// One row of the active-volume table.
#[derive(Clone, Debug, PartialEq, Eq)]
pub struct VolumeRowView {
    pub name: String,
    pub source: String,
    pub mount: String,
    pub readonly: bool,
    pub cipher: String,
    pub source_kind: String,
}

/// A form value without surrounding whitespace, or the error naming the empty field.
pub open spec fn required(label: Seq<char>, value: Seq<char>) -> Result<Seq<char>, Seq<char>> {
    if trim(value).len() == 0 {
        Err(label + " is required."@)
    } else {
        Ok(trim(value))
    }
}

fn required_value(label: &str, value: &str) -> (r: Result<String, String>)
    ensures
        match (r, required(label@, value@)) {
            (Ok(s), Ok(t)) => s@ == t,
            (Err(e), Err(t)) => e@ == t,
            _ => false,
        },
{
    let trimmed = str_trim(value);
    if trimmed.len() == 0 {
        Err(concat2(label, " is required."))
    } else {
        Ok(string_from_chars(&trimmed))
    }
}

/// The source kind that a target-kind field names.
pub open spec fn form_source_kind(value: Seq<char>) -> Option<SourceKind> {
    if value == "file"@ {
        Some(SourceKind::File)
    } else if value == "partition"@ {
        Some(SourceKind::Block)
    } else {
        None
    }
}

/// The volume type that a format field names.
pub open spec fn form_volume_type(value: Seq<char>) -> Option<VolumeType> {
    if value == "luks"@ {
        Some(VolumeType::Luks)
    } else if value == "vera"@ || value == "veracrypt"@ {
        Some(VolumeType::Veracrypt)
    } else {
        None
    }
}

/// A directory and a file name joined with exactly the one `/` that the directory lacks.
pub open spec fn join_location(dir: Seq<char>, name: Seq<char>) -> Seq<char> {
    if dir.len() > 0 && dir.last() == '/' {
        dir + name
    } else {
        dir + "/"@ + name
    }
}

/// The target path of a create form, or the error for its first empty field.
pub open spec fn create_target(kind: SourceKind, file_path: Seq<char>, file_name: Seq<char>, partition: Seq<char>) -> Result<Seq<char>, Seq<char>> {
    match kind {
        SourceKind::File => match required("Location"@, file_path) {
            Err(e) => Err(e),
            Ok(dir) => match required("Filename"@, file_name) {
                Err(e) => Err(e),
                Ok(name) => Ok(join_location(dir, name)),
            },
        },
        SourceKind::Block => required("Partition"@, partition),
    }
}

/// The create request that the form describes, or the first error, in the order the fields are
/// checked: target kind, format, cipher, target fields, passphrase, confirmation, their match,
/// then (for files) the size already converted to gigabytes.
pub open spec fn spec_build_create(
    target_kind: Seq<char>,
    format: Seq<char>,
    file_path: Seq<char>,
    file_name: Seq<char>,
    partition: Seq<char>,
    size_gb: Result<Seq<char>, Seq<char>>,
    cipher: Seq<char>,
    passphrase: Seq<char>,
    confirm: Seq<char>,
) -> Result<CreateCommandView, Seq<char>> {
    match form_source_kind(target_kind) {
        None => Err("Unsupported target kind: "@ + target_kind),
        Some(kind) => match form_volume_type(format) {
            None => Err("Unsupported format: "@ + format),
            Some(volume_type) => match spec_cipher(cipher) {
                None => Err("Unsupported create cipher: "@ + cipher),
                Some(c) => match create_target(kind, file_path, file_name, partition) {
                    Err(e) => Err(e),
                    Ok(target) => match required("Passphrase"@, passphrase) {
                        Err(e) => Err(e),
                        Ok(pw) => match required("Passphrase confirmation"@, confirm) {
                            Err(e) => Err(e),
                            Ok(cf) => if pw != cf {
                                Err("Create passphrase confirmation does not match."@)
                            } else {
                                let size: Result<Option<Seq<char>>, Seq<char>> = match kind {
                                    SourceKind::File => match size_gb {
                                        Ok(s) => Ok(Some(s)),
                                        Err(e) => Err(e),
                                    },
                                    SourceKind::Block => Ok(None),
                                };
                                match size {
                                    Err(e) => Err(e),
                                    Ok(sz) => Ok(CreateCommandView {
                                        target,
                                        size_gb: sz,
                                        force: kind == SourceKind::Block,
                                        source_kind: kind,
                                        volume_type,
                                        cipher: c,
                                        passphrase: Some(pw),
                                    }),
                                }
                            },
                        },
                    },
                },
            },
        },
    }
}

/// The text of a result whose both sides are strings.
pub open spec fn result_text(r: Result<String, String>) -> Result<Seq<char>, Seq<char>> {
    match r {
        Ok(s) => Ok(s@),
        Err(e) => Err(e@),
    }
}

/// Builds the create request from the create form.
///
/// `size_gb` is the size field already converted to gigabytes (its unit applied), or the error
/// that the conversion gave; it is consulted for file targets only, after every other check.
pub fn build_create_command(
    target_kind: &str,
    format: &str,
    file_path: &str,
    file_name: &str,
    partition: &str,
    size_gb: Result<String, String>,
    cipher: &str,
    passphrase: &str,
    confirm: &str,
) -> (r: Result<CreateCommand, String>)
    ensures
        match (r, spec_build_create(target_kind@, format@, file_path@, file_name@, partition@, result_text(size_gb), cipher@, passphrase@, confirm@)) {
            (Ok(c), Ok(v)) => c@ == v,
            (Err(e), Err(t)) => e@ == t,
            _ => false,
        },
{
    let source_kind = if str_eq(target_kind, "file") {
        SourceKind::File
    } else if str_eq(target_kind, "partition") {
        SourceKind::Block
    } else {
        return Err(concat2("Unsupported target kind: ", target_kind));
    };
    let volume_type = if str_eq(format, "luks") {
        VolumeType::Luks
    } else if str_eq(format, "vera") || str_eq(format, "veracrypt") {
        VolumeType::Veracrypt
    } else {
        return Err(concat2("Unsupported format: ", format));
    };
    let chosen = match CreateCipher::parse(cipher) {
        Some(c) => c,
        None => return Err(concat2("Unsupported create cipher: ", cipher)),
    };
    let target = match source_kind {
        SourceKind::File => {
            let dir = match required_value("Location", file_path) {
                Ok(v) => v,
                Err(e) => return Err(e),
            };
            let name = match required_value("Filename", file_name) {
                Ok(v) => v,
                Err(e) => return Err(e),
            };
            let dir_chars = crate::text::char_vec(dir.as_str());
            let mut joined = dir.clone();
            if dir_chars.len() > 0 && dir_chars[dir_chars.len() - 1] == '/' {
                push_str(&mut joined, name.as_str());
            } else {
                push_str(&mut joined, "/");
                push_str(&mut joined, name.as_str());
            }
            joined
        },
        SourceKind::Block => match required_value("Partition", partition) {
            Ok(v) => v,
            Err(e) => return Err(e),
        },
    };
    let pw = match required_value("Passphrase", passphrase) {
        Ok(v) => v,
        Err(e) => return Err(e),
    };
    let cf = match required_value("Passphrase confirmation", confirm) {
        Ok(v) => v,
        Err(e) => return Err(e),
    };
    let pw_chars = crate::text::char_vec(pw.as_str());
    let cf_chars = crate::text::char_vec(cf.as_str());
    if !chars_eq(&pw_chars, &cf_chars) {
        return Err(crate::text::owned("Create passphrase confirmation does not match."));
    }
    let size = match source_kind {
        SourceKind::File => match size_gb {
            Ok(s) => Some(s),
            Err(e) => return Err(e),
        },
        SourceKind::Block => None,
    };
    Ok(CreateCommand {
        target,
        size_gb: size,
        force: source_kind == SourceKind::Block,
        source_kind,
        volume_type,
        cipher: chosen,
        passphrase: Some(pw),
    })
}

/// The mount request that the mount form describes, or the first error: key-file unlock is
/// refused, then the source, mount point and passphrase must be given. The volume type is left
/// to detection.
pub open spec fn spec_build_mount(source: Seq<char>, mount_point: Seq<char>, auth_method: Seq<char>, passphrase: Seq<char>, readonly: bool) -> Result<MountCommandView, Seq<char>> {
    if auth_method == "key"@ {
        Err("Key-file unlock is not yet supported."@)
    } else {
        match required("Source"@, source) {
            Err(e) => Err(e),
            Ok(src) => match required("Mount point"@, mount_point) {
                Err(e) => Err(e),
                Ok(mp) => match required("Passphrase"@, passphrase) {
                    Err(e) => Err(e),
                    Ok(pw) => Ok(MountCommandView {
                        source: src,
                        mountpoint: mp,
                        tag: None,
                        volume_type: VolumeType::Auto,
                        passphrase: Some(pw),
                        readonly,
                    }),
                },
            },
        }
    }
}

/// Builds the mount request from the mount form. The key file and the source kind are not used.
pub fn build_mount_command(
    source: &str,
    mount_point: &str,
    auth_method: &str,
    passphrase: &str,
    _key_file: &str,
    readonly: bool,
    _source_kind: &str,
) -> (r: Result<MountCommand, String>)
    ensures
        match (r, spec_build_mount(source@, mount_point@, auth_method@, passphrase@, readonly)) {
            (Ok(c), Ok(v)) => c@ == v,
            (Err(e), Err(t)) => e@ == t,
            _ => false,
        },
{
    if str_eq(auth_method, "key") {
        return Err(crate::text::owned("Key-file unlock is not yet supported."));
    }
    let src = match required_value("Source", source) {
        Ok(v) => v,
        Err(e) => return Err(e),
    };
    let mp = match required_value("Mount point", mount_point) {
        Ok(v) => v,
        Err(e) => return Err(e),
    };
    let pw = match required_value("Passphrase", passphrase) {
        Ok(v) => v,
        Err(e) => return Err(e),
    };
    Ok(MountCommand {
        source: src,
        mountpoint: mp,
        tag: None,
        volume_type: VolumeType::Auto,
        passphrase: Some(pw),
        readonly,
    })
}

/// The unmount request for an active volume: its mount point when mounted, its mapper path
/// otherwise, with the type left to detection.
pub fn build_unmount_command_for_volume(volume: &ActiveVolume) -> (r: UnmountCommand)
    ensures
        r@ == (UnmountCommandView {
            target: match volume.mountpoint {
                Some(m) => m@,
                None => volume.mapper_path@,
            },
            tag: None,
            volume_type: VolumeType::Auto,
        }),
{
    let target = match &volume.mountpoint {
        Some(m) => m.clone(),
        None => volume.mapper_path.clone(),
    };
    UnmountCommand { target, tag: None, volume_type: VolumeType::Auto }
}

/// The table row for an active volume.
pub open spec fn row_for(v: ActiveVolume, row: VolumeRowView) -> bool {
    &&& row.name@ == v.mapper_name@
    &&& row.source@ == v.mapper_path@
    &&& row.mount@ == match v.mountpoint {
        Some(m) => m@,
        None => "(unmounted)"@,
    }
    &&& !row.readonly
    &&& row.cipher@ == match v.filesystem_type {
        Some(f) => f@,
        None => Seq::<char>::empty(),
    }
    &&& row.source_kind@ == "partition"@
}

/// The rows of the active-volume table, one per volume and in the same order.
pub fn volume_rows(volumes: &Vec<ActiveVolume>) -> (r: Vec<VolumeRowView>)
    ensures
        r@.len() == volumes@.len(),
        forall|i: int| 0 <= i < volumes@.len() ==> row_for(#[trigger] volumes@[i], r@[i]),
{
    let mut rows: Vec<VolumeRowView> = Vec::new();
    let mut i: usize = 0;
    while i < volumes.len()
        invariant
            i <= volumes.len(),
            rows@.len() == i,
            forall|j: int| 0 <= j < i ==> row_for(#[trigger] volumes@[j], rows@[j]),
        decreases volumes.len() - i,
    {
        let volume = &volumes[i];
        let mount = match &volume.mountpoint {
            Some(m) => m.clone(),
            None => crate::text::owned("(unmounted)"),
        };
        let cipher = match &volume.filesystem_type {
            Some(f) => f.clone(),
            None => String::new(),
        };
        rows.push(VolumeRowView {
            name: volume.mapper_name.clone(),
            source: volume.mapper_path.clone(),
            mount,
            readonly: false,
            cipher,
            source_kind: crate::text::owned("partition"),
        });
        i = i + 1;
    }
    rows
}

/// The error to show for a failed operation: its own message, or a generic one.
pub fn response_error(response: &OperationResponse) -> (r: String)
    ensures
        r@ == match response.error {
            Some(e) => e@,
            None => "The operation failed."@,
        },
{
    match &response.error {
        Some(e) => e.clone(),
        None => crate::text::owned("The operation failed."),
    }
}


/// Which secret fields a finished form clears.
#[derive(Clone, Copy, Debug, PartialEq, Eq, Structural)]
pub enum ResetKind {
    Keep,
    CreateSecrets,
    MountSecrets,
}

/// What the desktop window shows of an operation: whether it is busy and with what label, the
/// status and error lines, and the passphrase fields.
#[derive(Clone, Debug)]
pub struct WindowState {
    pub busy: bool,
    pub busy_label: String,
    pub status_message: String,
    pub error_message: String,
    pub create_passphrase: String,
    pub create_passphrase_confirm: String,
    pub mount_passphrase: String,
}

/// The window's state as plain values.
pub struct WindowView {
    pub busy: bool,
    pub busy_label: Seq<char>,
    pub status_message: Seq<char>,
    pub error_message: Seq<char>,
    pub create_passphrase: Seq<char>,
    pub create_passphrase_confirm: Seq<char>,
    pub mount_passphrase: Seq<char>,
}

impl View for WindowState {
    type V = WindowView;

    open spec fn view(&self) -> WindowView {
        WindowView {
            busy: self.busy,
            busy_label: self.busy_label@,
            status_message: self.status_message@,
            error_message: self.error_message@,
            create_passphrase: self.create_passphrase@,
            create_passphrase_confirm: self.create_passphrase_confirm@,
            mount_passphrase: self.mount_passphrase@,
        }
    }
}

/// The window while an action runs: busy with its label, no status, no error.
pub open spec fn busy_with(w: WindowView, label: Seq<char>) -> WindowView {
    WindowView { busy: true, busy_label: label, status_message: Seq::empty(), error_message: Seq::empty(), ..w }
}

/// The window showing an error: idle, no status.
pub open spec fn showing_error(w: WindowView, message: Seq<char>) -> WindowView {
    WindowView { busy: false, busy_label: Seq::empty(), status_message: Seq::empty(), error_message: message, ..w }
}

/// The window with the secrets of a form cleared.
pub open spec fn reset_view(w: WindowView, reset: ResetKind) -> WindowView {
    match reset {
        ResetKind::Keep => w,
        ResetKind::CreateSecrets => WindowView { create_passphrase: Seq::empty(), create_passphrase_confirm: Seq::empty(), ..w },
        ResetKind::MountSecrets => WindowView { mount_passphrase: Seq::empty(), ..w },
    }
}

/// The window once an operation ended: idle, the form's secrets cleared, and the success
/// message, or the error of the response or of running the helper.
pub open spec fn finished_view(w: WindowView, reset: ResetKind, outcome: Result<(bool, Option<Seq<char>>), Seq<char>>, success: Seq<char>) -> WindowView {
    let idle = reset_view(WindowView { busy: false, busy_label: Seq::empty(), ..w }, reset);
    match outcome {
        Ok((true, _)) => WindowView { error_message: Seq::empty(), status_message: success, ..idle },
        Ok((false, error)) => WindowView {
            status_message: Seq::empty(),
            error_message: match error { Some(e) => e, None => "The operation failed."@ },
            ..idle
        },
        Err(m) => WindowView { status_message: Seq::empty(), error_message: m, ..idle },
    }
}

/// An operation that started and then ended leaves the window idle: a success shows its
/// message and no error, a failure shows no status, and the secrets of the form are cleared as
/// the operation asked.
pub proof fn finished_operations_leave_the_window_idle(w: WindowView, label: Seq<char>, reset: ResetKind,
    outcome: Result<(bool, Option<Seq<char>>), Seq<char>>, success: Seq<char>)
    ensures
        ({
            let done = finished_view(busy_with(w, label), reset, outcome, success);
            &&& !done.busy
            &&& done.busy_label.len() == 0
            &&& outcome matches Ok((true, _)) ==> done.error_message.len() == 0 && done.status_message == success
            &&& !(outcome matches Ok((true, _))) ==> done.status_message.len() == 0
            &&& reset == ResetKind::CreateSecrets ==> done.create_passphrase.len() == 0 && done.create_passphrase_confirm.len() == 0
            &&& reset == ResetKind::MountSecrets ==> done.mount_passphrase.len() == 0
            &&& reset == ResetKind::Keep ==> done.create_passphrase == w.create_passphrase && done.mount_passphrase == w.mount_passphrase
        }),
{
}

/// The window once a refresh of the volume list ended.
pub open spec fn refreshed_view(w: WindowView, announce: bool, outcome: Result<(), Seq<char>>) -> WindowView {
    let idle = WindowView { busy: false, busy_label: Seq::empty(), ..w };
    match outcome {
        Ok(()) => WindowView {
            error_message: Seq::empty(),
            status_message: if announce { "Active volumes refreshed."@ } else { w.status_message },
            ..idle
        },
        Err(m) => WindowView {
            status_message: if announce { Seq::empty() } else { w.status_message },
            error_message: m,
            ..idle
        },
    }
}

impl WindowState {
    /// Shows that an action runs.
    pub fn set_busy(&mut self, message: &str)
        ensures
            final(self)@ == busy_with(old(self)@, message@),
    {
        self.busy = true;
        self.busy_label = crate::text::owned(message);
        self.status_message = String::new();
        self.error_message = String::new();
        proof { reveal_strlit(""); }
    }

    /// Shows an error.
    pub fn set_error(&mut self, message: &str)
        ensures
            final(self)@ == showing_error(old(self)@, message@),
    {
        self.busy = false;
        self.busy_label = String::new();
        self.status_message = String::new();
        self.error_message = crate::text::owned(message);
    }

    /// Clears the secrets of a form.
    pub fn apply_reset(&mut self, reset: ResetKind)
        ensures
            final(self)@ == reset_view(old(self)@, reset),
    {
        match reset {
            ResetKind::Keep => {},
            ResetKind::CreateSecrets => {
                self.create_passphrase = String::new();
                self.create_passphrase_confirm = String::new();
            },
            ResetKind::MountSecrets => {
                self.mount_passphrase = String::new();
            },
        }
    }

    /// Starts an operation: without a helper, the form's secrets are cleared and the error that
    /// locating the helper gave (or a generic one) is shown, and nothing runs; otherwise the
    /// window turns busy. Says whether the operation runs.
    pub fn start_operation(&mut self, helper_path: &Option<String>, helper_error: &Option<String>, busy_label: &str, reset: ResetKind) -> (r: bool)
        ensures
            r == (helper_path is Some),
            r ==> final(self)@ == busy_with(old(self)@, busy_label@),
            !r ==> final(self)@ == showing_error(reset_view(old(self)@, reset), match *helper_error {
                Some(e) => e@,
                None => "Failed to locate lurker-helper."@,
            }),
    {
        if helper_path.is_none() {
            let message = match helper_error {
                Some(e) => e.clone(),
                None => crate::text::owned("Failed to locate lurker-helper."),
            };
            self.apply_reset(reset);
            self.set_error(message.as_str());
            return false;
        }
        self.set_busy(busy_label);
        true
    }

    /// Ends an operation with what running the helper gave. Says whether the volume list is to
    /// be refreshed (when the operation succeeded).
    pub fn finish_operation(&mut self, reset: ResetKind, result: &Result<OperationResponse, String>, success_message: &str) -> (r: bool)
        ensures
            r == (result matches Ok(response) && response.ok),
            final(self)@ == finished_view(old(self)@, reset, match *result {
                Ok(response) => Ok((response.ok, opt_text(response.error))),
                Err(m) => Err(m@),
            }, success_message@),
    {
        self.busy = false;
        self.busy_label = String::new();
        self.apply_reset(reset);
        match result {
            Ok(response) => {
                if response.ok {
                    self.error_message = String::new();
                    self.status_message = crate::text::owned(success_message);
                    true
                } else {
                    self.status_message = String::new();
                    self.error_message = response_error(response);
                    false
                }
            },
            Err(m) => {
                self.status_message = String::new();
                self.error_message = m.clone();
                false
            },
        }
    }

    /// Starts a refresh of the volume list: announced, the window turns busy; otherwise only the
    /// error line is cleared.
    pub fn begin_refresh(&mut self, announce: bool)
        ensures
            announce ==> final(self)@ == busy_with(old(self)@, "Refreshing active volumes…"@),
            !announce ==> final(self)@ == (WindowView { error_message: Seq::empty(), ..old(self)@ }),
    {
        if announce {
            self.set_busy("Refreshing active volumes…");
        } else {
            self.error_message = String::new();
            proof { reveal_strlit(""); }
        }
    }

    /// Ends a refresh of the volume list with its outcome.
    pub fn finish_refresh(&mut self, announce: bool, result: &Result<(), String>)
        ensures
            final(self)@ == refreshed_view(old(self)@, announce, match *result {
                Ok(()) => Ok(()),
                Err(m) => Err(m@),
            }),
    {
        self.busy = false;
        self.busy_label = String::new();
        match result {
            Ok(()) => {
                self.error_message = String::new();
                if announce {
                    self.status_message = crate::text::owned("Active volumes refreshed.");
                }
            },
            Err(m) => {
                if announce {
                    self.status_message = String::new();
                }
                self.error_message = m.clone();
            },
        }
    }
}

} // verus!
