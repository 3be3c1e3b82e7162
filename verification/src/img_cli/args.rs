//! What the command line hands to each command.
use std::path::PathBuf;
use vstd::prelude::*;

verus! {

/// A path of the file system. Nothing is read from it here: paths are carried
/// from the command line to whoever opens the file.
#[verifier::external_type_specification]
#[verifier::external_body]
pub struct ExPathBuf(PathBuf);

/// A parsed command line.
#[derive(Debug)]
pub struct CliArgs {
    pub command: Commands,
}

/// The commands.
#[derive(Debug)]
pub enum Commands {
    /// Hide a message in a file.
    Encode(EncodeArgs),
    /// Show the message that a file hides.
    Decode(DecodeArgs),
    /// Take a hidden message out of a file.
    Remove(RemoveArgs),
    /// List the chunks of a file.
    Print(PrintArgs),
    /// Work on files as a whole.
    Manage(ManageArgs),
}

/// `encode`: append a chunk of type `chunk_type` that holds `message`.
#[derive(Debug)]
pub struct EncodeArgs {
    pub file_path: PathBuf,
    pub chunk_type: String,
    pub message: String,
    /// Where to write the result; the input file where this is `None`.
    pub output_file: Option<PathBuf>,
}

/// `decode`: show the payload of the first chunk of type `chunk_type`.
#[derive(Debug)]
pub struct DecodeArgs {
    pub file_path: PathBuf,
    pub chunk_type: String,
}

/// `remove`: take out the first chunk of type `chunk_type`.
#[derive(Debug)]
pub struct RemoveArgs {
    pub file_path: PathBuf,
    pub chunk_type: String,
}

/// `print`: list the chunks.
#[derive(Debug)]
pub struct PrintArgs {
    pub file_path: PathBuf,
}

/// `manage` and its own commands.
#[derive(Debug)]
pub struct ManageArgs {
    pub manage_command: ManageCommands,
}

/// The commands under `manage`.
#[derive(Debug)]
pub enum ManageCommands {
    /// Delete a file.
    Delete(DeleteArgs),
    /// Fetch a file from the network.
    Download(DownloadFromInternetArgs),
    /// Store an image in another format.
    Convert(ConvertArgs),
}

/// `manage delete`.
#[derive(Debug)]
pub struct DeleteArgs {
    pub file_path: PathBuf,
}

/// `manage download`.
#[derive(Debug)]
pub struct DownloadFromInternetArgs {
    pub url: String,
    pub output_file_name: PathBuf,
}

/// `manage convert`: one flag for each format that can be asked for.
#[derive(Debug)]
pub struct ConvertArgs {
    pub convert_to_png: bool,
    pub convert_to_jpg: bool,
    pub convert_to_tiff: bool,
    pub convert_to_webp: bool,
    pub input_path: PathBuf,
}

} // verus!
