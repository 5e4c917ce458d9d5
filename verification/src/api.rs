//! The requests and responses that the command line, the desktop front and the helper exchange.
//! Paths are held as text.

use vstd::prelude::*;
use crate::model::{CreateCipher, SourceKind, VolumeType};
use crate::output::OutputEntry;

verus! {

/// One operation to perform.
#[derive(Clone, Debug)]
pub enum CommandAction {
    Create(CreateCommand),
    Mount(MountCommand),
    Unmount(UnmountCommand),
}

/// Create an encrypted volume in a file or on a block device.
#[derive(Clone, Debug)]
pub struct CreateCommand {
    pub target: String,
    pub size_gb: Option<String>,
    pub force: bool,
    pub source_kind: SourceKind,
    pub volume_type: VolumeType,
    pub cipher: CreateCipher,
    pub passphrase: Option<String>,
}

/// Open an encrypted volume and mount its filesystem.
#[derive(Clone, Debug)]
pub struct MountCommand {
    pub source: String,
    pub mountpoint: String,
    pub tag: Option<String>,
    pub volume_type: VolumeType,
    pub passphrase: Option<String>,
    pub readonly: bool,
}

/// Unmount a filesystem and close its mapper.
#[derive(Clone, Debug)]
pub struct UnmountCommand {
    pub target: String,
    pub tag: Option<String>,
    pub volume_type: VolumeType,
}

/// Whether a tool was found, and where.
#[derive(Clone, Debug)]
pub struct ToolStatus {
    pub name: String,
    pub path: Option<String>,
    pub required: bool,
}

/// What the system offers to the workflows.
#[derive(Clone, Debug)]
pub struct SystemProbe {
    pub is_root: bool,
    pub tools: Vec<ToolStatus>,
}

/// An open `lurker_*` mapper and where its filesystem is mounted.
#[derive(Clone, Debug)]
pub struct ActiveVolume {
    pub mapper_name: String,
    pub mapper_path: String,
    pub mountpoint: Option<String>,
    pub filesystem_type: Option<String>,
}

/// An active volume with its text as character sequences.
pub struct ActiveVolumeView {
    pub mapper_name: Seq<char>,
    pub mapper_path: Seq<char>,
    pub mountpoint: Option<Seq<char>>,
    pub filesystem_type: Option<Seq<char>>,
}

impl View for ActiveVolume {
    type V = ActiveVolumeView;

    open spec fn view(&self) -> ActiveVolumeView {
        ActiveVolumeView {
            mapper_name: self.mapper_name@,
            mapper_path: self.mapper_path@,
            mountpoint: opt_text(self.mountpoint),
            filesystem_type: opt_text(self.filesystem_type),
        }
    }
}

/// The outcome of an operation with the log it produced.
#[derive(Clone, Debug)]
pub struct OperationResponse {
    pub ok: bool,
    pub logs: Vec<OutputEntry>,
    pub error: Option<String>,
}

/// The text of an optional string.
pub open spec fn opt_text(o: Option<String>) -> Option<Seq<char>> {
    match o {
        Some(s) => Some(s@),
        None => None,
    }
}

/// A create request, its text fields taken as character sequences.
pub struct CreateCommandView {
    pub target: Seq<char>,
    pub size_gb: Option<Seq<char>>,
    pub force: bool,
    pub source_kind: SourceKind,
    pub volume_type: VolumeType,
    pub cipher: CreateCipher,
    pub passphrase: Option<Seq<char>>,
}

impl View for CreateCommand {
    type V = CreateCommandView;

    open spec fn view(&self) -> CreateCommandView {
        CreateCommandView {
            target: self.target@,
            size_gb: opt_text(self.size_gb),
            force: self.force,
            source_kind: self.source_kind,
            volume_type: self.volume_type,
            cipher: self.cipher,
            passphrase: opt_text(self.passphrase),
        }
    }
}

/// A mount request, its text fields taken as character sequences.
pub struct MountCommandView {
    pub source: Seq<char>,
    pub mountpoint: Seq<char>,
    pub tag: Option<Seq<char>>,
    pub volume_type: VolumeType,
    pub passphrase: Option<Seq<char>>,
    pub readonly: bool,
}

impl View for MountCommand {
    type V = MountCommandView;

    open spec fn view(&self) -> MountCommandView {
        MountCommandView {
            source: self.source@,
            mountpoint: self.mountpoint@,
            tag: opt_text(self.tag),
            volume_type: self.volume_type,
            passphrase: opt_text(self.passphrase),
            readonly: self.readonly,
        }
    }
}

/// An unmount request, its text fields taken as character sequences.
pub struct UnmountCommandView {
    pub target: Seq<char>,
    pub tag: Option<Seq<char>>,
    pub volume_type: VolumeType,
}

impl View for UnmountCommand {
    type V = UnmountCommandView;

    open spec fn view(&self) -> UnmountCommandView {
        UnmountCommandView { target: self.target@, tag: opt_text(self.tag), volume_type: self.volume_type }
    }
}

/// An operation request, its text fields taken as character sequences.
pub enum CommandActionView {
    Create(CreateCommandView),
    Mount(MountCommandView),
    Unmount(UnmountCommandView),
}

impl View for CommandAction {
    type V = CommandActionView;

    open spec fn view(&self) -> CommandActionView {
        match self {
            CommandAction::Create(c) => CommandActionView::Create(c@),
            CommandAction::Mount(m) => CommandActionView::Mount(m@),
            CommandAction::Unmount(u) => CommandActionView::Unmount(u@),
        }
    }
}

/// A copy of an optional string.
pub fn opt_copy(o: &Option<String>) -> (r: Option<String>)
    ensures
        opt_text(r) == opt_text(*o),
{
    match o {
        Some(s) => Some(s.clone()),
        None => None,
    }
}

} // verus!
