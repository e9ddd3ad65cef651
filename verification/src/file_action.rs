//! The file operations: what to ask of the file system, and what to make of
//! what it gave back.
//!
//! Nothing here touches a file. A read takes what loading the file gave and
//! turns it into text, records or the caller's value; a write gives the
//! `WriteRequest` to carry out. Paths are relative to the directory that holds
//! the running program, which the caller hands in as `base_dir`.

use vstd::prelude::*;
use vstd::string::StringSliceAdditionalSpecFns;
use vstd::utf8::encode_utf8;
use crate::csv::{csv_rows, parse_rows};
use crate::error::FileError;
use crate::json::{indent_line_breaks, indented};
use crate::path::{join_path, joined_path};
use crate::request::{mode_named, WriteMode, WriteRequest};
use crate::text::{decoded, text_from_utf8};

verus! {

/// The text that is written for a serialized value: with a `space` its pretty
/// form, each line feed followed by that many more spaces; without one its
/// compact form as it is.
pub open spec fn json_text(serialized: Seq<char>, space: Option<usize>) -> Seq<char> {
    match space {
        Some(width) => indented(serialized, width as nat),
        None => serialized,
    }
}

/// The file operations. It holds nothing: every call stands alone.
pub struct FileAction;

impl FileAction {
    /// The path of the file that `current_file_path` names below `base_dir`.
    pub fn convert_file_link(base_dir: &str, current_file_path: &str) -> (path: String)
        ensures
            path@ == joined_path(base_dir@, current_file_path@),
    {
        join_path(base_dir, current_file_path)
    }

    /// The text of a file, from what loading it gave: the bytes decoded as
    /// UTF-8, `InvalidText` where they are not UTF-8, and the file system's
    /// own error where loading failed.
    pub fn read(loaded: Result<Vec<u8>, std::io::Error>) -> (text: Result<String, FileError>)
        ensures
            match loaded {
                Ok(bytes) => match decoded(bytes@) {
                    Some(chars) => text is Ok && text->Ok_0@ == chars,
                    None => text == Err::<String, FileError>(FileError::InvalidText),
                },
                Err(cause) => text == Err::<String, FileError>(FileError::Io(cause)),
            },
    {
        match loaded {
            Ok(bytes) => match text_from_utf8(bytes) {
                Some(text) => Ok(text),
                None => Err(FileError::InvalidText),
            },
            Err(cause) => Err(FileError::Io(cause)),
        }
    }

    /// The records of a CSV file, from what loading it gave. It fails exactly
    /// where `read` fails, with the same error.
    pub fn read_csv(loaded: Result<Vec<u8>, std::io::Error>) -> (rows: Result<
        Vec<Vec<String>>,
        FileError,
    >)
        ensures
            match loaded {
                Ok(bytes) => match decoded(bytes@) {
                    Some(chars) => rows is Ok && rows->Ok_0.deep_view() == csv_rows(chars),
                    None => rows == Err::<Vec<Vec<String>>, FileError>(FileError::InvalidText),
                },
                Err(cause) => rows == Err::<Vec<Vec<String>>, FileError>(FileError::Io(cause)),
            },
    {
        match Self::read(loaded) {
            Ok(text) => Ok(parse_rows(text.as_str())),
            Err(error) => Err(error),
        }
    }

    /// The value read from a JSON file, from what deserializing the file's
    /// text gave: the value itself, or the deserializer's error as a
    /// `FileError`.
    pub fn read_json<T>(parsed: Result<T, serde_json::Error>) -> (value: Result<T, FileError>)
        ensures
            match parsed {
                Ok(v) => value == Ok::<T, FileError>(v),
                Err(cause) => value == Err::<T, FileError>(FileError::Json(cause)),
            },
    {
        match parsed {
            Ok(v) => Ok(v),
            Err(cause) => Err(FileError::Json(cause)),
        }
    }

    /// The write of `write_string` to the file that `current_file_path` names,
    /// in the mode that `file_read_mode` names.
    pub fn write(
        base_dir: &str,
        current_file_path: &str,
        write_string: &str,
        file_read_mode: &str,
    ) -> (request: WriteRequest)
        ensures
            request.path@ == joined_path(base_dir@, current_file_path@),
            request.mode == mode_named(file_read_mode@),
            request.data@ == encode_utf8(write_string@),
    {
        WriteRequest {
            path: Self::convert_file_link(base_dir, current_file_path),
            mode: WriteMode::from_name(file_read_mode),
            data: write_string.as_bytes_vec(),
        }
    }

    /// The write that puts `write_string` behind what the file holds.
    pub fn write_add(base_dir: &str, current_file_path: &str, write_string: &str) -> (request:
        WriteRequest)
        ensures
            request.path@ == joined_path(base_dir@, current_file_path@),
            request.mode == WriteMode::Append,
            request.data@ == encode_utf8(write_string@),
    {
        proof {
            reveal_strlit("append");
            reveal_strlit("overwrite");
            assert("append"@.len() != "overwrite"@.len());
        }
        Self::write(base_dir, current_file_path, write_string, "append")
    }

    /// The write that replaces what the file holds by `write_string`.
    pub fn write_new(base_dir: &str, current_file_path: &str, write_string: &str) -> (request:
        WriteRequest)
        ensures
            request.path@ == joined_path(base_dir@, current_file_path@),
            request.mode == WriteMode::Overwrite,
            request.data@ == encode_utf8(write_string@),
    {
        Self::write(base_dir, current_file_path, write_string, "overwrite")
    }

    /// The write of a serialized value, from what serializing it in the form
    /// `JsonForm::for_space(space)` gave: the whole file is replaced by
    /// `json_text` of the serialized form. Where serializing failed nothing
    /// is written, and the serializer's error comes back as a `FileError`.
    pub fn write_json(
        base_dir: &str,
        current_file_path: &str,
        serialized: Result<String, serde_json::Error>,
        space: Option<usize>,
    ) -> (request: Result<WriteRequest, FileError>)
        ensures
            match serialized {
                Ok(json) => {
                    &&& request is Ok
                    &&& request->Ok_0.path@ == joined_path(base_dir@, current_file_path@)
                    &&& request->Ok_0.mode == WriteMode::Overwrite
                    &&& request->Ok_0.data@ == encode_utf8(json_text(json@, space))
                },
                Err(cause) => request == Err::<WriteRequest, FileError>(FileError::Json(cause)),
            },
    {
        let path = Self::convert_file_link(base_dir, current_file_path);
        match serialized {
            Ok(json) => {
                let text = match space {
                    Some(width) => indent_line_breaks(json.as_str(), width),
                    None => json,
                };
                Ok(WriteRequest { path, mode: WriteMode::Overwrite, data: text.as_str().as_bytes_vec() })
            },
            Err(cause) => Err(FileError::Json(cause)),
        }
    }

    /// The write that leaves the file empty.
    pub fn clear(base_dir: &str, current_file_path: &str) -> (request: WriteRequest)
        ensures
            request.path@ == joined_path(base_dir@, current_file_path@),
            request.mode == WriteMode::Overwrite,
            request.data@ == Seq::<u8>::empty(),
    {
        proof {
            reveal_strlit("");
            assert(""@ =~= Seq::<char>::empty());
        }
        Self::write_new(base_dir, current_file_path, "")
    }
}

} // verus!
