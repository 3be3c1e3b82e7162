//! Reading, editing and writing PNG containers chunk by chunk.
//!
//! A PNG file is an eight byte signature followed by chunks. Each chunk is
//! framed as a big-endian length, a four letter type code, the payload and a
//! CRC-32 of type code and payload. This crate decodes such a buffer into a
//! [`png::image::Png`], lets callers append, look up and remove chunks by
//! type code, and encodes the result again, byte for byte.
//!
//! The commands of the command line tool are here too, as functions from the
//! bytes of a file to what is to be written or shown. Files, the network and
//! the terminal are the caller's business: [`input`] names the file to read,
//! [`run`] says what to do with its bytes.
pub mod img_cli;
pub mod png;

use crate::img_cli::args::{
    CliArgs, Commands, DeleteArgs, DownloadFromInternetArgs, ManageCommands,
};
use crate::img_cli::commands::{
    chosen_format, convert_file, decode, decoded, destination, encode, encoded, listed,
    print_chunks, remove, removed, CommandError, Listing, TargetFormat,
};
use std::path::PathBuf;
use vstd::prelude::*;

verus! {

/// What is left to do when a command has computed its part.
#[derive(Debug)]
pub enum Action<'a> {
    /// Write `bytes` to the file at `path`.
    Write { path: &'a PathBuf, bytes: Vec<u8> },
    /// Show the message.
    Show(String),
    /// Show the listing.
    List(Listing<'a>),
    /// Delete the file.
    Delete(&'a DeleteArgs),
    /// Fetch the URL and store what comes.
    Download(&'a DownloadFromInternetArgs),
    /// Read the image at `input` and store it in the format `target`; fail
    /// with the error in `target` where the command line named no format.
    Convert { input: &'a PathBuf, target: Result<TargetFormat, CommandError> },
}

/// The file whose bytes [`run`] needs: the PNG file of the four chunk
/// commands. The `manage` commands read nothing beforehand.
pub fn input<'a>(cli: &'a CliArgs) -> (r: Option<&'a PathBuf>)
    ensures
        match cli.command {
            Commands::Encode(a) => r matches Some(p) && *p == a.file_path,
            Commands::Decode(a) => r matches Some(p) && *p == a.file_path,
            Commands::Remove(a) => r matches Some(p) && *p == a.file_path,
            Commands::Print(a) => r matches Some(p) && *p == a.file_path,
            Commands::Manage(_) => r is None,
        },
{
    match &cli.command {
        Commands::Encode(a) => Some(&a.file_path),
        Commands::Decode(a) => Some(&a.file_path),
        Commands::Remove(a) => Some(&a.file_path),
        Commands::Print(a) => Some(&a.file_path),
        Commands::Manage(_) => None,
    }
}

/// `r` is what [`run`] owes for the command line `cli` and the bytes `file`
/// of its input file: each command's own result, as an action.
pub open spec fn ran(cli: &CliArgs, file: Seq<u8>, r: Result<Action, CommandError>) -> bool {
    match cli.command {
        Commands::Encode(a) => match encoded(file, a.chunk_type@, a.message@) {
            Ok(bytes) => r matches Ok(Action::Write { path, bytes: out }) && *path == destination(
                &a,
            ) && out@ == bytes,
            Err(e) => r matches Err(x) && x == e,
        },
        Commands::Decode(a) => match r {
            Ok(Action::Show(text)) => decoded(file, a.chunk_type@, Ok(text)),
            Ok(_) => false,
            Err(e) => decoded(file, a.chunk_type@, Err(e)),
        },
        Commands::Remove(a) => match removed(file, a.chunk_type@) {
            Ok(bytes) => r matches Ok(Action::Write { path, bytes: out }) && *path == a.file_path
                && out@ == bytes,
            Err(e) => r matches Err(x) && x == e,
        },
        Commands::Print(a) => match r {
            Ok(Action::List(listing)) => listed(&a, file, Ok(listing)),
            Ok(_) => false,
            Err(e) => listed(&a, file, Err(e)),
        },
        Commands::Manage(m) => match m.manage_command {
            ManageCommands::Delete(a) => r matches Ok(Action::Delete(x)) && *x == a,
            ManageCommands::Download(a) => r matches Ok(Action::Download(x)) && *x == a,
            ManageCommands::Convert(a) => {
                &&& r matches Ok(Action::Convert { input, target })
                &&& *input == a.input_path
                &&& match chosen_format(&a) {
                    Some(format) => target matches Ok(f) && f == format,
                    None => target matches Err(e) && e == CommandError::ConversionError,
                }
            },
        },
    }
}

/// Runs the command that `cli` names on the bytes of its input file and
/// returns what is left to do: see [`ran`]. A failure of the command comes
/// back as its error and nothing is to be written then.
pub fn run<'a>(cli: &'a CliArgs, file: &[u8]) -> (r: Result<Action<'a>, CommandError>)
    ensures
        ran(cli, file@, r),
{
    match &cli.command {
        Commands::Encode(args) => {
            let (path, bytes) = encode(args, file)?;
            Ok(Action::Write { path, bytes })
        },
        Commands::Decode(args) => {
            let text = decode(args, file)?;
            Ok(Action::Show(text))
        },
        Commands::Remove(args) => {
            let bytes = remove(args, file)?;
            Ok(Action::Write { path: &args.file_path, bytes })
        },
        Commands::Print(args) => {
            let listing = print_chunks(args, file)?;
            Ok(Action::List(listing))
        },
        Commands::Manage(manage_args) => match &manage_args.manage_command {
            ManageCommands::Delete(args) => Ok(Action::Delete(args)),
            ManageCommands::Download(args) => Ok(Action::Download(args)),
            ManageCommands::Convert(args) => Ok(
                Action::Convert { input: &args.input_path, target: convert_file(args) },
            ),
        },
    }
}

} // verus!
