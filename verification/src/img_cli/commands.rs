//! What each command computes, between the reading of a file and the writing
//! of one. Nothing here touches the file system or the network: a command
//! takes the bytes that were read and returns what is to be written or shown.
use crate::img_cli::args::{ConvertArgs, DecodeArgs, EncodeArgs, PrintArgs, RemoveArgs};
use crate::png::chunk::{fresh_chunk, Chunk, ChunkError};
use crate::png::chunk_type::{code_text, parse_code};
use crate::png::image::{
    decode_png, encode_png, first_of_type, is_first_of_type, lemma_encode_of_decode,
    lemma_first_of_type_is_unique, none_of_type, views, Png, PngError,
};
use core::str::Utf8Error;
use std::path::PathBuf;
use vstd::prelude::*;
use vstd::string::to_string_from_display_ensures;
use vstd::utf8::{decode_utf8, encode_utf8, valid_utf8};

verus! {

/// Why a command failed.
#[derive(Debug)]
pub enum CommandError {
    /// A download did not come through.
    DownloadError,
    /// A file could not be deleted.
    DeleteFileError,
    /// An image could not be converted, or no format was asked for.
    ConversionError,
    /// The server did not have what was asked for.
    FailedToFindURL,
    /// The file is no PNG, or holds no chunk of the type asked for.
    Png(PngError),
    /// The chunk to add could not be built.
    Chunk(ChunkError),
    /// The payload is no text.
    Text(Utf8Error),
}

impl CommandError {
    /// The message shown for each failure of the `manage` commands, the
    /// name of a codec error, and what the standard library says of bytes
    /// that are no UTF-8.
    pub fn to_string(&self) -> (r: String)
        ensures
            self is DownloadError ==> r@ == "Failed to download file from the internet"@,
            self is DeleteFileError ==> r@ == "File does not exist cannot display"@,
            self is ConversionError ==> r@ == "Failed to convert file"@,
            self is FailedToFindURL ==> r@ == "Failed to find URL from the internet"@,
            self matches CommandError::Png(e) ==> r@ == e.text(),
            self matches CommandError::Chunk(e) ==> r@ == e.text(),
            self matches CommandError::Text(e) ==> to_string_from_display_ensures::<Utf8Error>(
                &e,
                r,
            ),
    {
        match self {
            CommandError::DownloadError => "Failed to download file from the internet".to_owned(),
            CommandError::DeleteFileError => "File does not exist cannot display".to_owned(),
            CommandError::ConversionError => "Failed to convert file".to_owned(),
            CommandError::FailedToFindURL => "Failed to find URL from the internet".to_owned(),
            CommandError::Png(e) => e.to_string(),
            CommandError::Chunk(e) => e.to_string(),
            CommandError::Text(e) => e.to_string(),
        }
    }
}

/// The file that `encode` writes: the output file where one was named, the
/// input file else.
pub open spec fn destination(args: &EncodeArgs) -> PathBuf {
    match args.output_file {
        Some(path) => path,
        None => args.file_path,
    }
}

/// What `encode` makes of a file: the same chunks, and behind them a fresh
/// chunk of the given type that holds the message as UTF-8. A file that is no
/// PNG is refused before the type code is looked at.
pub open spec fn encoded(file: Seq<u8>, chunk_type: Seq<char>, message: Seq<char>) -> Result<
    Seq<u8>,
    CommandError,
> {
    match decode_png(file) {
        Err(e) => Err(CommandError::Png(e)),
        Ok(chunks) => match parse_code(chunk_type) {
            Err(_) => Err(CommandError::Chunk(ChunkError::ConversionError)),
            Ok(code) => Ok(encode_png(chunks.push(fresh_chunk(code, encode_utf8(message))))),
        },
    }
}

/// `encode`: the bytes to write, and the file to write them to.
pub fn encode<'a>(args: &'a EncodeArgs, file: &[u8]) -> (r: Result<
    (&'a PathBuf, Vec<u8>),
    CommandError,
>)
    ensures
        match encoded(file@, args.chunk_type@, args.message@) {
            Ok(bytes) => r matches Ok((path, out)) && *path == destination(args) && out@ == bytes,
            Err(e) => r matches Err(x) && x == e,
        },
{
    let mut png = match Png::try_from(file) {
        Ok(png) => png,
        Err(e) => {
            return Err(CommandError::Png(e));
        },
    };
    let chunk = match Chunk::from_strings(args.chunk_type.as_str(), args.message.as_str()) {
        Ok(chunk) => chunk,
        Err(e) => {
            return Err(CommandError::Chunk(e));
        },
    };
    png.append_chunk(chunk);
    let path = match &args.output_file {
        Some(path) => path,
        None => &args.file_path,
    };
    Ok((path, png.as_bytes()))
}

/// What `remove` makes of a file: the same chunks without the first one of
/// the given type.
pub open spec fn removed(file: Seq<u8>, chunk_type: Seq<char>) -> Result<Seq<u8>, CommandError> {
    match decode_png(file) {
        Err(e) => Err(CommandError::Png(e)),
        Ok(chunks) => if none_of_type(chunks, chunk_type) {
            Err(CommandError::Png(PngError::InvalidChunk))
        } else {
            Ok(encode_png(chunks.remove(first_of_type(chunks, chunk_type))))
        },
    }
}

/// `remove`: the bytes to write back to the file.
pub fn remove(args: &RemoveArgs, file: &[u8]) -> (r: Result<Vec<u8>, CommandError>)
    ensures
        match removed(file@, args.chunk_type@) {
            Ok(bytes) => r matches Ok(out) && out@ == bytes,
            Err(e) => r matches Err(x) && x == e,
        },
{
    let mut png = match Png::try_from(file) {
        Ok(png) => png,
        Err(e) => {
            return Err(CommandError::Png(e));
        },
    };
    let ghost before = png.spec_chunks();
    match png.remove_chunk(args.chunk_type.as_str()) {
        Ok(_) => {
            proof {
                let i = choose|i: int|
                    is_first_of_type(views(before), args.chunk_type@, i) && png.spec_chunks()
                        == before.remove(i);
                lemma_first_of_type_is_unique(views(before), args.chunk_type@, i, i);
                assert(views(before.remove(i)) =~= views(before).remove(i));
            }
            Ok(png.as_bytes())
        },
        Err(e) => Err(CommandError::Png(e)),
    }
}

/// The payload that `decode` reads: that of the first chunk of the given type.
pub open spec fn hidden(file: Seq<u8>, chunk_type: Seq<char>) -> Result<Seq<u8>, CommandError> {
    match decode_png(file) {
        Err(e) => Err(CommandError::Png(e)),
        Ok(chunks) => if none_of_type(chunks, chunk_type) {
            Err(CommandError::Png(PngError::InvalidChunk))
        } else {
            Ok(chunks[first_of_type(chunks, chunk_type)].data)
        },
    }
}

/// `r` is what `decode` owes for `file`: the payload as text where it is
/// valid UTF-8, the decoder's own error where it is not.
pub open spec fn decoded(file: Seq<u8>, chunk_type: Seq<char>, r: Result<String, CommandError>) -> bool {
    match hidden(file, chunk_type) {
        Err(e) => r matches Err(x) && x == e,
        Ok(data) => if valid_utf8(data) {
            r matches Ok(text) && text@ == decode_utf8(data)
        } else {
            r matches Err(CommandError::Text(_))
        },
    }
}

/// `decode`: the message to show.
pub fn decode(args: &DecodeArgs, file: &[u8]) -> (r: Result<String, CommandError>)
    ensures
        decoded(file@, args.chunk_type@, r),
{
    let png = match Png::try_from(file) {
        Ok(png) => png,
        Err(e) => {
            return Err(CommandError::Png(e));
        },
    };
    match png.chunk_by_type(args.chunk_type.as_str()) {
        Some(chunk) => {
            proof {
                let i = choose|i: int|
                    is_first_of_type(png@, args.chunk_type@, i) && *chunk == png.spec_chunks()[i];
                lemma_first_of_type_is_unique(png@, args.chunk_type@, i, i);
            }
            match chunk.data_as_string() {
                Ok(text) => Ok(text),
                Err(e) => Err(CommandError::Text(e)),
            }
        },
        None => Err(CommandError::Png(PngError::InvalidChunk)),
    }
}

/// One line of a listing: a chunk's type code and its length field.
#[derive(Debug)]
pub struct ChunkLine {
    pub chunk_type: String,
    pub data_length: u32,
}

/// What `print` shows of a file.
#[derive(Debug)]
pub struct Listing<'a> {
    /// The file that was read.
    pub file_path: &'a PathBuf,
    /// The size of the file in bytes.
    pub size: usize,
    /// One line for each chunk, in file order.
    pub chunks: Vec<ChunkLine>,
}

/// `r` is what `print` owes for `file`.
pub open spec fn listed(args: &PrintArgs, file: Seq<u8>, r: Result<Listing, CommandError>) -> bool {
    match decode_png(file) {
        Err(e) => r matches Err(x) && x == CommandError::Png(e),
        Ok(chunks) => {
            &&& r matches Ok(listing)
            &&& *listing.file_path == args.file_path
            &&& listing.size == file.len()
            &&& listing.size == encode_png(chunks).len()
            &&& listing.chunks@.len() == chunks.len()
            &&& forall|i: int|
                0 <= i < chunks.len() ==> {
                    &&& (#[trigger] listing.chunks@[i]).chunk_type@ == code_text(
                        chunks[i].chunk_type,
                    )
                    &&& listing.chunks@[i].data_length == chunks[i].length
                }
        },
    }
}

/// `print`: the size of the file and a line for each chunk.
pub fn print_chunks<'a>(args: &'a PrintArgs, file: &[u8]) -> (r: Result<Listing<'a>, CommandError>)
    ensures
        listed(args, file@, r),
{
    let png = match Png::try_from(file) {
        Ok(png) => png,
        Err(e) => {
            return Err(CommandError::Png(e));
        },
    };
    proof {
        lemma_encode_of_decode(file@);
    }
    let size: usize = png.as_bytes().len();
    let chunks = png.chunks();
    let mut lines: Vec<ChunkLine> = Vec::new();
    let mut i: usize = 0;
    while i < chunks.len()
        invariant
            i <= chunks@.len(),
            chunks@ == png.spec_chunks(),
            lines@.len() == i,
            forall|j: int|
                0 <= j < i ==> {
                    &&& (#[trigger] lines@[j]).chunk_type@ == code_text(png@[j].chunk_type)
                    &&& lines@[j].data_length == png@[j].length
                },
        decreases chunks@.len() - i,
    {
        let chunk = &chunks[i];
        lines.push(
            ChunkLine { chunk_type: chunk.chunk_type().to_string(), data_length: chunk.length() },
        );
        i += 1;
    }
    Ok(Listing { file_path: &args.file_path, size, chunks: lines })
}

/// A format that `manage convert` can store an image in.
#[derive(Debug, Clone, Copy, PartialEq, Eq)]
pub enum TargetFormat {
    Jpeg,
    Png,
    Tiff,
    WebP,
}

impl TargetFormat {
    /// The extension that a file of this format gets.
    pub fn extension(&self) -> (r: &'static str)
        ensures
            r@ == match self {
                TargetFormat::Jpeg => "jpeg"@,
                TargetFormat::Png => "png"@,
                TargetFormat::Tiff => "tiff"@,
                TargetFormat::WebP => "webp"@,
            },
    {
        match self {
            TargetFormat::Jpeg => "jpeg",
            TargetFormat::Png => "png",
            TargetFormat::Tiff => "tiff",
            TargetFormat::WebP => "webp",
        }
    }
}

/// The format that the flags ask for. Where several are set, JPEG goes
/// before PNG, PNG before TIFF, and TIFF before WebP.
pub open spec fn chosen_format(args: &ConvertArgs) -> Option<TargetFormat> {
    if args.convert_to_jpg {
        Some(TargetFormat::Jpeg)
    } else if args.convert_to_png {
        Some(TargetFormat::Png)
    } else if args.convert_to_tiff {
        Some(TargetFormat::Tiff)
    } else if args.convert_to_webp {
        Some(TargetFormat::WebP)
    } else {
        None
    }
}

/// `manage convert`: the format to store the image in. With no flag set
/// there is nothing to convert to.
pub fn convert_file(args: &ConvertArgs) -> (r: Result<TargetFormat, CommandError>)
    ensures
        match chosen_format(args) {
            Some(format) => r matches Ok(f) && f == format,
            None => r matches Err(e) && e == CommandError::ConversionError,
        },
{
    if args.convert_to_jpg {
        Ok(TargetFormat::Jpeg)
    } else if args.convert_to_png {
        Ok(TargetFormat::Png)
    } else if args.convert_to_tiff {
        Ok(TargetFormat::Tiff)
    } else if args.convert_to_webp {
        Ok(TargetFormat::WebP)
    } else {
        Err(CommandError::ConversionError)
    }
}

} // verus!
