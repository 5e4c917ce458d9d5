//! Small enumerations shared by the command line, the desktop front and the workflow.

use vstd::prelude::*;
use crate::text::str_eq;

verus! {

broadcast use vstd::string::group_string_axioms;

/// When terminal output is colored.
#[derive(Clone, Copy, Debug, PartialEq, Eq, Structural)]
pub enum ColorMode {
    Auto,
    Always,
    Never,
}

/// The color mode that a `--color` value names.
pub open spec fn spec_color_mode(value: Seq<char>) -> Option<ColorMode> {
    if value == "auto"@ {
        Some(ColorMode::Auto)
    } else if value == "always"@ {
        Some(ColorMode::Always)
    } else if value == "never"@ {
        Some(ColorMode::Never)
    } else {
        None
    }
}

impl ColorMode {
    /// Parses `auto`, `always` or `never`.
    pub fn parse(value: &str) -> (r: Option<ColorMode>)
        ensures
            r == spec_color_mode(value@),
    {
        if str_eq(value, "auto") {
            Some(ColorMode::Auto)
        } else if str_eq(value, "always") {
            Some(ColorMode::Always)
        } else if str_eq(value, "never") {
            Some(ColorMode::Never)
        } else {
            None
        }
    }
}

/// The kind of encrypted container.
#[derive(Clone, Copy, Debug, PartialEq, Eq, Structural)]
pub enum VolumeType {
    Auto,
    Luks,
    Veracrypt,
}

/// The name of a volume type.
pub open spec fn volume_type_name(t: VolumeType) -> Seq<char> {
    match t {
        VolumeType::Auto => "auto"@,
        VolumeType::Luks => "luks"@,
        VolumeType::Veracrypt => "veracrypt"@,
    }
}

/// The volume type that a name denotes.
pub open spec fn spec_volume_type(value: Seq<char>) -> Option<VolumeType> {
    if value == "auto"@ {
        Some(VolumeType::Auto)
    } else if value == "luks"@ {
        Some(VolumeType::Luks)
    } else if value == "veracrypt"@ {
        Some(VolumeType::Veracrypt)
    } else {
        None
    }
}

impl VolumeType {
    /// Parses `auto`, `luks` or `veracrypt`.
    pub fn parse(value: &str) -> (r: Option<VolumeType>)
        ensures
            r == spec_volume_type(value@),
    {
        if str_eq(value, "auto") {
            Some(VolumeType::Auto)
        } else if str_eq(value, "luks") {
            Some(VolumeType::Luks)
        } else if str_eq(value, "veracrypt") {
            Some(VolumeType::Veracrypt)
        } else {
            None
        }
    }

    /// The name of this volume type.
    pub fn as_str(self) -> (r: &'static str)
        ensures
            r@ == volume_type_name(self),
    {
        match self {
            VolumeType::Auto => "auto",
            VolumeType::Luks => "luks",
            VolumeType::Veracrypt => "veracrypt",
        }
    }
}

/// The cipher profile used when a volume is created.
#[derive(Clone, Copy, Debug, PartialEq, Eq, Structural)]
pub enum CreateCipher {
    Aes,
    Serpent,
    Twofish,
}

impl Default for CreateCipher {
    fn default() -> (r: CreateCipher)
        ensures
            r == CreateCipher::Aes,
    {
        CreateCipher::Aes
    }
}

/// The name of a cipher profile.
pub open spec fn cipher_name(c: CreateCipher) -> Seq<char> {
    match c {
        CreateCipher::Aes => "aes"@,
        CreateCipher::Serpent => "serpent"@,
        CreateCipher::Twofish => "twofish"@,
    }
}

/// The cipher profile that a name denotes.
pub open spec fn spec_cipher(value: Seq<char>) -> Option<CreateCipher> {
    if value == "aes"@ {
        Some(CreateCipher::Aes)
    } else if value == "serpent"@ {
        Some(CreateCipher::Serpent)
    } else if value == "twofish"@ {
        Some(CreateCipher::Twofish)
    } else {
        None
    }
}

impl CreateCipher {
    /// Parses `aes`, `serpent` or `twofish`.
    pub fn parse(value: &str) -> (r: Option<CreateCipher>)
        ensures
            r == spec_cipher(value@),
    {
        if str_eq(value, "aes") {
            Some(CreateCipher::Aes)
        } else if str_eq(value, "serpent") {
            Some(CreateCipher::Serpent)
        } else if str_eq(value, "twofish") {
            Some(CreateCipher::Twofish)
        } else {
            None
        }
    }

    /// The name of this cipher profile.
    pub fn as_str(self) -> (r: &'static str)
        ensures
            r@ == cipher_name(self),
    {
        match self {
            CreateCipher::Aes => "aes",
            CreateCipher::Serpent => "serpent",
            CreateCipher::Twofish => "twofish",
        }
    }
}

/// Whether a container lives in a regular file or on a block device.
#[derive(Clone, Copy, Debug, PartialEq, Eq, Structural)]
pub enum SourceKind {
    File,
    Block,
}

/// What an unmount target was resolved from.
#[derive(Clone, Copy, Debug, PartialEq, Eq, Structural)]
pub enum ResolvedTargetKind {
    Mapper,
    Mountpoint,
    Block,
    File,
}

/// The name of a resolved target kind.
pub open spec fn target_kind_name(k: ResolvedTargetKind) -> Seq<char> {
    match k {
        ResolvedTargetKind::Mapper => "mapper"@,
        ResolvedTargetKind::Mountpoint => "mountpoint"@,
        ResolvedTargetKind::Block => "block"@,
        ResolvedTargetKind::File => "file"@,
    }
}

impl ResolvedTargetKind {
    /// The name of this target kind.
    pub fn as_str(self) -> (r: &'static str)
        ensures
            r@ == target_kind_name(self),
    {
        match self {
            ResolvedTargetKind::Mapper => "mapper",
            ResolvedTargetKind::Mountpoint => "mountpoint",
            ResolvedTargetKind::Block => "block",
            ResolvedTargetKind::File => "file",
        }
    }
}

/// Naming a volume type and parsing the name gives the volume type back.
pub proof fn volume_type_name_round_trip(t: VolumeType)
    ensures
        spec_volume_type(volume_type_name(t)) == Some(t),
{
    reveal_strlit("auto");
    reveal_strlit("luks");
    reveal_strlit("veracrypt");
    assert("luks"@[0] != "auto"@[0]);
    assert("veracrypt"@.len() != "auto"@.len());
    assert("veracrypt"@.len() != "luks"@.len());
}

/// A name that parses as a volume type is that type's name.
pub proof fn volume_type_parse_is_name(value: Seq<char>)
    ensures
        spec_volume_type(value) matches Some(t) ==> volume_type_name(t) == value,
{
}

/// Naming a cipher profile and parsing the name gives the profile back.
pub proof fn cipher_name_round_trip(c: CreateCipher)
    ensures
        spec_cipher(cipher_name(c)) == Some(c),
{
    reveal_strlit("aes");
    reveal_strlit("serpent");
    reveal_strlit("twofish");
    assert("serpent"@.len() != "aes"@.len());
    assert("twofish"@.len() != "aes"@.len());
    assert("twofish"@[0] != "serpent"@[0]);
}

/// A name that parses as a cipher profile is that profile's name.
pub proof fn cipher_parse_is_name(value: Seq<char>)
    ensures
        spec_cipher(value) matches Some(c) ==> cipher_name(c) == value,
{
}

} // verus!
