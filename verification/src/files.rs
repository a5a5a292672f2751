//! Artifact file descriptors: for a resolved output kind, the ordered list
//! of files the toolchain will produce, with the platform-specific
//! companions (import library, companion binary, debug-information bundle).
use vstd::prelude::*;

use crate::text::{contains_seq, ends_with_seq, starts_with_seq};

verus! {

/// Type of each file generated for a build unit.
#[derive(Copy, Clone, PartialEq, Eq, Debug, Structural)]
pub enum TargetFileType {
    /// Not a special file type.
    Normal,
    /// Something one can link against (e.g. a library).
    Linkable,
    /// A piece of external debug information (e.g. *.dSYM and *.pdb).
    DebugInfo,
}

/// The role of the build unit the files belong to.
#[derive(Copy, Clone, PartialEq, Eq, Debug, Structural)]
pub enum TargetKind {
    Lib,
    Bin,
    Test,
    Bench,
    ExampleLib,
    ExampleBin,
    CustomBuild,
}

/// One artifact file: its name is `prefix`, then the unit's own name
/// (hyphens rewritten when `should_replace_hyphens` says so), then
/// `suffix`.
pub struct FileType {
    pub suffix: String,
    pub prefix: String,
    pub target_file_type: TargetFileType,
    pub should_replace_hyphens: bool,
}

/// The mathematical shape of a file descriptor.
pub struct FileTypeV {
    pub suffix: Seq<char>,
    pub prefix: Seq<char>,
    pub target_file_type: TargetFileType,
    pub should_replace_hyphens: bool,
}

impl View for FileType {
    type V = FileTypeV;

    open spec fn view(&self) -> FileTypeV {
        FileTypeV {
            suffix: self.suffix@,
            prefix: self.prefix@,
            target_file_type: self.target_file_type,
            should_replace_hyphens: self.should_replace_hyphens,
        }
    }
}

/// A dynamic library on a Windows/MSVC target whose base suffix is the
/// dynamic-library suffix also gets an import library.
pub open spec fn msvc_import_lib_applies(
    crate_type: Seq<char>,
    suffix: Seq<char>,
    triple: Seq<char>,
) -> bool {
    &&& ends_with_seq(triple, "pc-windows-msvc"@)
    &&& ends_with_seq(crate_type, "dylib"@)
    &&& suffix == ".dll"@
}

/// An executable for a WebAssembly target whose base suffix is the script
/// suffix also gets a companion binary.
pub open spec fn wasm_companion_applies(
    crate_type: Seq<char>,
    suffix: Seq<char>,
    triple: Seq<char>,
) -> bool {
    &&& starts_with_seq(triple, "wasm32-"@)
    &&& crate_type == "bin"@
    &&& suffix == ".js"@
}

/// The complete ordered descriptor list for one resolved output kind: the
/// base descriptor first, then every applicable platform companion, in the
/// fixed precedence order.
pub open spec fn spec_plan(
    prefix: Seq<char>,
    suffix: Seq<char>,
    crate_type: Seq<char>,
    file_type: TargetFileType,
    kind: TargetKind,
    triple: Seq<char>,
) -> Seq<FileTypeV> {
    let base = seq![
        FileTypeV {
            suffix: suffix,
            prefix: prefix,
            target_file_type: file_type,
            should_replace_hyphens: false,
        },
    ];
    let import_lib = if msvc_import_lib_applies(crate_type, suffix, triple) {
        seq![
            FileTypeV {
                suffix: ".dll.lib"@,
                prefix: prefix,
                target_file_type: TargetFileType::Normal,
                should_replace_hyphens: false,
            },
        ]
    } else {
        Seq::empty()
    };
    let companion = if wasm_companion_applies(crate_type, suffix, triple) {
        seq![
            FileTypeV {
                suffix: ".wasm"@,
                prefix: prefix,
                target_file_type: TargetFileType::Normal,
                should_replace_hyphens: true,
            },
        ]
    } else {
        Seq::empty()
    };
    let debug_info = if kind == TargetKind::Bin {
        if contains_seq(triple, "-apple-"@) {
            seq![
                FileTypeV {
                    suffix: ".dSYM"@,
                    prefix: prefix,
                    target_file_type: TargetFileType::DebugInfo,
                    should_replace_hyphens: false,
                },
            ]
        } else if ends_with_seq(triple, "-msvc"@) {
            seq![
                FileTypeV {
                    suffix: ".pdb"@,
                    prefix: prefix,
                    target_file_type: TargetFileType::DebugInfo,
                    should_replace_hyphens: false,
                },
            ]
        } else {
            Seq::empty()
        }
    } else {
        Seq::empty()
    };
    base + import_lib + companion + debug_info
}

/// Expands a resolved (prefix, suffix) pair for `crate_type` into the full
/// ordered descriptor list, as `spec_plan` describes.
pub fn plan_file_types(
    prefix: &str,
    suffix: &str,
    crate_type: &str,
    file_type: TargetFileType,
    kind: &TargetKind,
    target_triple: &str,
) -> (r: Vec<FileType>)
    ensures
        r@.map_values(|f: FileType| f@) == spec_plan(
            prefix@,
            suffix@,
            crate_type@,
            file_type,
            *kind,
            target_triple@,
        ),
{
    let mut r: Vec<FileType> = Vec::new();
    r.push(
        FileType {
            suffix: suffix.to_owned(),
            prefix: prefix.to_owned(),
            target_file_type: file_type,
            should_replace_hyphens: false,
        },
    );
    if crate::text::ends_with(target_triple, "pc-windows-msvc") && crate::text::ends_with(
        crate_type,
        "dylib",
    ) && crate::text::str_eq(suffix, ".dll") {
        r.push(
            FileType {
                suffix: ".dll.lib".to_owned(),
                prefix: prefix.to_owned(),
                target_file_type: TargetFileType::Normal,
                should_replace_hyphens: false,
            },
        );
    }
    if crate::text::starts_with(target_triple, "wasm32-") && crate::text::str_eq(
        crate_type,
        "bin",
    ) && crate::text::str_eq(suffix, ".js") {
        r.push(
            FileType {
                suffix: ".wasm".to_owned(),
                prefix: prefix.to_owned(),
                target_file_type: TargetFileType::Normal,
                should_replace_hyphens: true,
            },
        );
    }
    if *kind == TargetKind::Bin {
        if crate::text::contains_substr(target_triple, "-apple-") {
            r.push(
                FileType {
                    suffix: ".dSYM".to_owned(),
                    prefix: prefix.to_owned(),
                    target_file_type: TargetFileType::DebugInfo,
                    should_replace_hyphens: false,
                },
            );
        } else if crate::text::ends_with(target_triple, "-msvc") {
            r.push(
                FileType {
                    suffix: ".pdb".to_owned(),
                    prefix: prefix.to_owned(),
                    target_file_type: TargetFileType::DebugInfo,
                    should_replace_hyphens: false,
                },
            );
        }
    }
    proof {
        assert(r@.map_values(|f: FileType| f@) =~= spec_plan(
            prefix@,
            suffix@,
            crate_type@,
            file_type,
            *kind,
            target_triple@,
        ));
    }
    r
}

} // verus!
