//! What a write asks of the file system, and what the file holds afterwards.

use vstd::prelude::*;
use vstd::slice::slice_subrange;

verus! {

/// How the file is opened for a write. In every mode it is created where it
/// does not exist yet.
#[derive(Clone, Copy, Debug, PartialEq, Eq)]
pub enum WriteMode {
    /// Truncate first: the file holds the written bytes and nothing else.
    Overwrite,
    /// Write behind what the file holds.
    Append,
    /// Write from the start without truncating: bytes beyond the written ones stay.
    InPlace,
}

/// What a file that held `before` holds once `data` has been written in
/// `mode`. A file that did not exist counts as empty.
pub open spec fn written(mode: WriteMode, before: Seq<u8>, data: Seq<u8>) -> Seq<u8> {
    match mode {
        WriteMode::Overwrite => data,
        WriteMode::Append => before + data,
        WriteMode::InPlace => if data.len() >= before.len() {
            data
        } else {
            data + before.skip(data.len() as int)
        },
    }
}

/// The mode that a mode name stands for: `overwrite` overwrites, `append`
/// appends, and every other name writes in place.
pub open spec fn mode_named(name: Seq<char>) -> WriteMode {
    if name == "overwrite"@ {
        WriteMode::Overwrite
    } else if name == "append"@ {
        WriteMode::Append
    } else {
        WriteMode::InPlace
    }
}

impl WriteMode {
    /// The mode that `name` stands for.
    pub fn from_name(name: &str) -> (mode: WriteMode)
        ensures
            mode == mode_named(name@),
    {
        let given = name.to_owned();
        if given == "overwrite".to_owned() {
            WriteMode::Overwrite
        } else if given == "append".to_owned() {
            WriteMode::Append
        } else {
            WriteMode::InPlace
        }
    }
}

/// One write, ready to be carried out: open the file at `path` in `mode`,
/// creating it if need be, and write all of `data`.
#[derive(Clone, Debug, PartialEq, Eq)]
pub struct WriteRequest {
    pub path: String,
    pub mode: WriteMode,
    pub data: Vec<u8>,
}

impl WriteRequest {
    /// What the file holds after the write, if it held `before`.
    pub open spec fn outcome(self, before: Seq<u8>) -> Seq<u8> {
        written(self.mode, before, self.data@)
    }

    /// Carries the write out on bytes in memory: what a file that holds
    /// `before` holds afterwards.
    pub fn apply_to(&self, before: &[u8]) -> (after: Vec<u8>)
        ensures
            after@ == self.outcome(before@),
    {
        let mut after: Vec<u8> = Vec::new();
        match self.mode {
            WriteMode::Overwrite => {
                after.extend_from_slice(self.data.as_slice());
                assert(after@ =~= self.data@);
            },
            WriteMode::Append => {
                after.extend_from_slice(before);
                after.extend_from_slice(self.data.as_slice());
                assert(after@ =~= before@ + self.data@);
            },
            WriteMode::InPlace => {
                after.extend_from_slice(self.data.as_slice());
                if self.data.len() < before.len() {
                    after.extend_from_slice(slice_subrange(before, self.data.len(), before.len()));
                    assert(after@ =~= self.data@ + before@.skip(self.data.len() as int));
                } else {
                    assert(after@ =~= self.data@);
                }
            },
        }
        after
    }
}

} // verus!
