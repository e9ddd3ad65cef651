//! What holds of a file that the requests of this library were carried out on.
//!
//! A file is the bytes it holds. `written` says what a write leaves in it and
//! `decoded` what a read makes of it; the laws below relate the two.

use vstd::prelude::*;
use vstd::utf8::{
    decode_utf8, decode_utf8_encode_utf8, encode_utf8, encode_utf8_decode_utf8,
    encode_utf8_valid_utf8, valid_utf8,
};
use crate::file_action::json_text;
use crate::request::{mode_named, written, WriteMode};
use crate::text::decoded;

verus! {

/// A write in the mode named `overwrite` leaves the written bytes in the file
/// and nothing of what it held, however long that was.
pub proof fn overwrite_leaves_the_data_alone(before: Seq<u8>, data: Seq<u8>)
    ensures
        written(mode_named("overwrite"@), before, data) == data,
{
}

/// A write in the mode named `append` leaves what the file held, unchanged,
/// and the written bytes behind it.
pub proof fn append_leaves_the_data_behind(before: Seq<u8>, data: Seq<u8>)
    ensures
        written(mode_named("append"@), before, data) == before + data,
{
    reveal_strlit("append");
    reveal_strlit("overwrite");
    assert("append"@.len() != "overwrite"@.len());
}

/// A write in a mode of any other name puts the written bytes over the start
/// of the file: the file is as long as the longer of the two, and what it
/// held beyond the written bytes stays.
pub proof fn other_modes_write_in_place(name: Seq<char>, before: Seq<u8>, data: Seq<u8>)
    requires
        name != "overwrite"@,
        name != "append"@,
    ensures
        written(mode_named(name), before, data).len() == if data.len() >= before.len() {
            data.len()
        } else {
            before.len()
        },
        forall|i: int|
            0 <= i < data.len() ==> written(mode_named(name), before, data)[i] == data[i],
        forall|i: int|
            data.len() <= i < before.len() ==> written(mode_named(name), before, data)[i]
                == before[i],
{
}

/// The encoding of two texts in a row is the encoding of the first followed
/// by the encoding of the second.
pub proof fn encode_utf8_concat(a: Seq<char>, b: Seq<char>)
    ensures
        encode_utf8(a + b) == encode_utf8(a) + encode_utf8(b),
    decreases a.len(),
{
    if a.len() == 0 {
        assert(a + b =~= b);
        assert(encode_utf8(a) + encode_utf8(b) =~= encode_utf8(b));
    } else {
        assert((a + b).drop_first() =~= a.drop_first() + b);
        encode_utf8_concat(a.drop_first(), b);
        assert(encode_utf8(a + b) =~= encode_utf8(a) + encode_utf8(b));
    }
}

/// Every text reads back from its own encoding.
pub proof fn encoded_text_decodes(text: Seq<char>)
    ensures
        decoded(encode_utf8(text)) == Some(text),
{
    encode_utf8_valid_utf8(text);
    encode_utf8_decode_utf8(text);
}

/// A file that was overwritten with a text reads as that text, whatever it
/// held before.
pub proof fn overwritten_reads_back(before: Seq<u8>, text: Seq<char>)
    ensures
        decoded(written(WriteMode::Overwrite, before, encode_utf8(text))) == Some(text),
{
    encoded_text_decodes(text);
}

/// A file that held a text and had a second text appended reads as the first
/// followed by the second.
pub proof fn appended_reads_back(before: Seq<u8>, text: Seq<char>)
    requires
        valid_utf8(before),
    ensures
        decoded(written(WriteMode::Append, before, encode_utf8(text))) == Some(
            decode_utf8(before) + text,
        ),
{
    decode_utf8_encode_utf8(before);
    encode_utf8_concat(decode_utf8(before), text);
    encoded_text_decodes(decode_utf8(before) + text);
}

/// A file that was empty or missing and had two texts appended, one after
/// the other, reads as the first followed by the second.
pub proof fn appended_twice_reads_back(first: Seq<char>, second: Seq<char>)
    ensures
        decoded(
            written(
                WriteMode::Append,
                written(WriteMode::Append, Seq::empty(), encode_utf8(first)),
                encode_utf8(second),
            ),
        ) == Some(first + second),
{
    assert(Seq::<u8>::empty() + encode_utf8(first) =~= encode_utf8(first));
    encode_utf8_concat(first, second);
    encoded_text_decodes(first + second);
}

/// A file that was cleared reads as the empty text, whatever it held before.
pub proof fn cleared_reads_empty(before: Seq<u8>)
    ensures
        decoded(written(WriteMode::Overwrite, before, Seq::empty())) == Some(Seq::<char>::empty()),
{
    assert(encode_utf8(Seq::<char>::empty()) =~= Seq::<u8>::empty());
    encoded_text_decodes(Seq::empty());
}

/// A file that a serialized value was written to reads as the text that was
/// laid out for it; without indentation that is the serialized form itself,
/// character for character.
pub proof fn json_reads_back(before: Seq<u8>, serialized: Seq<char>, space: Option<usize>)
    ensures
        decoded(written(WriteMode::Overwrite, before, encode_utf8(json_text(serialized, space))))
            == Some(json_text(serialized, space)),
        space is None ==> json_text(serialized, space) == serialized,
{
    encoded_text_decodes(json_text(serialized, space));
}

} // verus!
