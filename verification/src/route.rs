//! Which conversion an input path gets, and where the archive goes by default.

use crate::batch::has_eml_extension;
use crate::batch::is_eml_extension;
use crate::error::MailoxideError;
use vstd::prelude::*;

verus! {

/// The conversion that an input path gets.
#[derive(Debug, Clone, Copy, PartialEq, Eq, Structural)]
pub enum Conversion {
    /// The input is a directory: its eligible files are converted as a batch.
    Batch,
    /// The input is one `.eml` file: it is appended to the archive.
    Single,
}

/// What is known of the input path before anything is read.
#[derive(Debug)]
pub struct InputKind {
    /// Whether the path names a directory.
    pub is_dir: bool,
    /// Whether the path names a regular file.
    pub is_file: bool,
    /// The bytes of the path's extension, without the dot, if its name has one.
    pub extension: Option<Vec<u8>>,
}

/// The conversion that an input path gets, if it gets one.
pub open spec fn conversion_for(kind: InputKind) -> Option<Conversion> {
    if kind.is_dir {
        Some(Conversion::Batch)
    } else if kind.is_file && has_eml_extension(kind.extension) {
        Some(Conversion::Single)
    } else {
        None
    }
}

/// Whether `bytes` spells the conventional name `input`.
pub open spec fn is_default_name(bytes: Seq<u8>) -> bool {
    // i n p u t
    bytes == seq![105u8, 110u8, 112u8, 117u8, 116u8]
}

/// Whether the archive goes to the current directory instead of the output named: it does
/// where both the input and the output are the conventional name `input`.
pub open spec fn falls_back_to_current_dir(input: Seq<u8>, output: Seq<u8>) -> bool {
    is_default_name(input) && is_default_name(output)
}

fn spells_default_name(bytes: &[u8]) -> (spelled: bool)
    ensures
        spelled == is_default_name(bytes@),
{
    let spelled = bytes.len() == 5 && bytes[0] == 105u8 && bytes[1] == 110u8 && bytes[2] == 112u8
        && bytes[3] == 117u8 && bytes[4] == 116u8;
    proof {
        if spelled {
            assert(bytes@ =~= seq![105u8, 110u8, 112u8, 117u8, 116u8]);
        }
    }
    spelled
}

/// Whether the archive goes to the current directory instead of the output named.
pub fn output_falls_back(input: &[u8], output: &[u8]) -> (fallback: bool)
    ensures
        fallback == falls_back_to_current_dir(input@, output@),
{
    spells_default_name(output) && spells_default_name(input)
}

/// Chooses the conversion for an input path, before anything is read: a directory is
/// converted as a batch, an `.eml` file alone, and anything else is refused with the reason.
pub fn select_conversion(kind: &InputKind) -> (choice: Result<Conversion, MailoxideError>)
    ensures
        match conversion_for(*kind) {
            Some(conversion) => choice == Ok::<Conversion, MailoxideError>(conversion),
            None => choice matches Err(MailoxideError::InvalidPath(reason)) && reason@ == (
            if kind.is_file {
                "Provided file is not an .eml file"@
            } else {
                "Provide a folder or an eml file"@
            }),
        },
{
    if kind.is_dir {
        Ok(Conversion::Batch)
    } else if kind.is_file {
        if is_eml_extension(&kind.extension) {
            Ok(Conversion::Single)
        } else {
            Err(MailoxideError::InvalidPath("Provided file is not an .eml file".to_owned()))
        }
    } else {
        Err(MailoxideError::InvalidPath("Provide a folder or an eml file".to_owned()))
    }
}

} // verus!
