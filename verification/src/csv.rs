//! Comma-separated records: one record per line, one field per comma-delimited piece.
//!
//! No quoting and no escaping: every comma separates two fields and every line
//! feed ends a record. A carriage return right before a line feed belongs to the
//! line ending. The last record needs no line ending.

use vstd::prelude::*;
use vstd::slice::slice_subrange;
use crate::text::{text_of, to_chars};

verus! {

/// Where `c` first stands in `s`; the length of `s` where it does not occur.
pub open spec fn first_index_of(s: Seq<char>, c: char) -> nat
    decreases s.len(),
{
    if s.len() == 0 || s[0] == c {
        0
    } else {
        1 + first_index_of(s.drop_first(), c)
    }
}

/// The pieces of `s` between the occurrences of `sep`: one more piece than
/// there are separators, so an empty `s` is one empty piece.
pub open spec fn split_on(s: Seq<char>, sep: char) -> Seq<Seq<char>>
    decreases s.len(),
{
    let i = first_index_of(s, sep) as int;
    if i >= s.len() {
        seq![s]
    } else {
        seq![s.take(i)] + split_on(s.skip(i + 1), sep)
    }
}

/// `line` without the carriage return at its end, if it has one.
pub open spec fn without_cr(line: Seq<char>) -> Seq<char> {
    if line.len() > 0 && line.last() == '\r' {
        line.drop_last()
    } else {
        line
    }
}

/// The lines of `text`. A line ends at a line feed, or at a carriage return
/// and the line feed behind it; what follows the last line feed is a line
/// only if it is not empty.
pub open spec fn lines_of(text: Seq<char>) -> Seq<Seq<char>>
    decreases text.len(),
{
    if text.len() == 0 {
        Seq::empty()
    } else {
        let i = first_index_of(text, '\n') as int;
        if i >= text.len() {
            seq![text]
        } else {
            seq![without_cr(text.take(i))] + lines_of(text.skip(i + 1))
        }
    }
}

/// The records of `text`: its lines, each split at its commas.
pub open spec fn csv_rows(text: Seq<char>) -> Seq<Seq<Seq<char>>> {
    lines_of(text).map_values(|line: Seq<char>| split_on(line, ','))
}

/// `first_index_of` is the one index within `s` that holds `c` and has no `c` before it,
/// or the length of `s` where no index holds `c`.
pub proof fn lemma_first_index_of(s: Seq<char>, c: char, i: int)
    requires
        0 <= i <= s.len(),
        forall|k: int| 0 <= k < i ==> s[k] != c,
        i < s.len() ==> s[i] == c,
    ensures
        first_index_of(s, c) == i,
    decreases s.len(),
{
    if i > 0 {
        let rest = s.drop_first();
        assert forall|k: int| 0 <= k < i - 1 implies rest[k] != c by {
            assert(rest[k] == s[k + 1]);
        }
        lemma_first_index_of(rest, c, i - 1);
    }
}

/// `first_index_of` lies within `s` or at its end, no `c` stands before it,
/// and `c` stands at it where it lies within `s`.
pub proof fn lemma_first_index_of_is_first(s: Seq<char>, c: char)
    ensures
        first_index_of(s, c) <= s.len(),
        forall|k: int| 0 <= k < first_index_of(s, c) ==> s[k] != c,
        first_index_of(s, c) < s.len() ==> s[first_index_of(s, c) as int] == c,
    decreases s.len(),
{
    if s.len() == 0 || s[0] == c {
    } else {
        let rest = s.drop_first();
        lemma_first_index_of_is_first(rest, c);
        assert forall|k: int| 0 <= k < first_index_of(s, c) implies s[k] != c by {
            if k > 0 {
                assert(s[k] == rest[k - 1]);
            }
        }
    }
}

/// `pieces` in a row, with one `sep` between each two neighbours.
pub open spec fn joined(pieces: Seq<Seq<char>>, sep: char) -> Seq<char>
    decreases pieces.len(),
{
    if pieces.len() == 0 {
        Seq::empty()
    } else if pieces.len() == 1 {
        pieces[0]
    } else {
        pieces[0] + seq![sep] + joined(pieces.drop_first(), sep)
    }
}

/// Splitting loses nothing and invents nothing: there is at least one piece,
/// no piece holds the separator, and the pieces joined by the separator are
/// the text that was split.
pub proof fn split_on_is_inverse_of_joined(s: Seq<char>, sep: char)
    ensures
        split_on(s, sep).len() >= 1,
        forall|k: int, j: int|
            0 <= k < split_on(s, sep).len() && 0 <= j < split_on(s, sep)[k].len() ==> split_on(
                s,
                sep,
            )[k][j] != sep,
        joined(split_on(s, sep), sep) == s,
    decreases s.len(),
{
    lemma_first_index_of_is_first(s, sep);
    let i = first_index_of(s, sep) as int;
    if i >= s.len() {
    } else {
        let rest = s.skip(i + 1);
        let pieces = split_on(s, sep);
        split_on_is_inverse_of_joined(rest, sep);
        assert(pieces.drop_first() =~= split_on(rest, sep));
        assert(joined(pieces, sep) =~= s);
        assert forall|k: int, j: int|
            0 <= k < pieces.len() && 0 <= j < pieces[k].len() implies pieces[k][j] != sep by {
            if k > 0 {
                assert(pieces[k] == split_on(rest, sep)[k - 1]);
            }
        }
    }
}

/// How often `c` stands in `s`.
pub open spec fn count_of(s: Seq<char>, c: char) -> nat
    decreases s.len(),
{
    if s.len() == 0 {
        0
    } else if s[0] == c {
        1 + count_of(s.drop_first(), c)
    } else {
        count_of(s.drop_first(), c)
    }
}

/// A start of `s` that holds no `c` adds nothing to the count.
proof fn count_of_skips(s: Seq<char>, c: char, i: int)
    requires
        0 <= i <= s.len(),
        forall|k: int| 0 <= k < i ==> s[k] != c,
    ensures
        count_of(s, c) == count_of(s.skip(i), c),
    decreases i,
{
    if i == 0 {
        assert(s.skip(0) =~= s);
    } else {
        let rest = s.drop_first();
        assert forall|k: int| 0 <= k < i - 1 implies rest[k] != c by {
            assert(rest[k] == s[k + 1]);
        }
        count_of_skips(rest, c, i - 1);
        assert(rest.skip(i - 1) =~= s.skip(i));
    }
}

/// A text has exactly one more piece than it has separators.
pub proof fn split_on_counts_separators(s: Seq<char>, sep: char)
    ensures
        split_on(s, sep).len() == 1 + count_of(s, sep),
    decreases s.len(),
{
    lemma_first_index_of_is_first(s, sep);
    let i = first_index_of(s, sep) as int;
    count_of_skips(s, sep, i);
    if i < s.len() {
        let rest = s.skip(i + 1);
        split_on_counts_separators(rest, sep);
        assert(s.skip(i).drop_first() =~= rest);
    }
}

/// A character that `s` does not hold stands in none of its pieces.
pub proof fn split_on_adds_nothing(s: Seq<char>, sep: char, c: char)
    requires
        forall|i: int| 0 <= i < s.len() ==> s[i] != c,
    ensures
        forall|k: int, j: int|
            0 <= k < split_on(s, sep).len() && 0 <= j < split_on(s, sep)[k].len() ==> split_on(
                s,
                sep,
            )[k][j] != c,
    decreases s.len(),
{
    lemma_first_index_of_is_first(s, sep);
    let i = first_index_of(s, sep) as int;
    if i < s.len() {
        let rest = s.skip(i + 1);
        let pieces = split_on(s, sep);
        split_on_adds_nothing(rest, sep, c);
        assert forall|k: int, j: int|
            0 <= k < pieces.len() && 0 <= j < pieces[k].len() implies pieces[k][j] != c by {
            if k > 0 {
                assert(pieces[k] == split_on(rest, sep)[k - 1]);
            }
        }
    }
}

/// Every line feed ends one line, and what follows the last of them is one
/// more line where it is not empty.
pub proof fn lines_of_counts_line_feeds(text: Seq<char>)
    ensures
        lines_of(text).len() == count_of(text, '\n') + if text.len() > 0 && text.last() != '\n' {
            1nat
        } else {
            0nat
        },
    decreases text.len(),
{
    lemma_first_index_of_is_first(text, '\n');
    let i = first_index_of(text, '\n') as int;
    count_of_skips(text, '\n', i);
    if text.len() > 0 && i < text.len() {
        let rest = text.skip(i + 1);
        lines_of_counts_line_feeds(rest);
        assert(text.skip(i).drop_first() =~= rest);
        if rest.len() > 0 {
            assert(rest.last() == text.last());
        }
    }
}

/// No line holds a line feed.
pub proof fn lines_hold_no_line_feed(text: Seq<char>)
    ensures
        forall|k: int, j: int|
            0 <= k < lines_of(text).len() && 0 <= j < lines_of(text)[k].len() ==> lines_of(
                text,
            )[k][j] != '\n',
    decreases text.len(),
{
    lemma_first_index_of_is_first(text, '\n');
    let i = first_index_of(text, '\n') as int;
    if text.len() > 0 && i < text.len() {
        let rest = text.skip(i + 1);
        let lines = lines_of(text);
        lines_hold_no_line_feed(rest);
        assert forall|k: int, j: int|
            0 <= k < lines.len() && 0 <= j < lines[k].len() implies lines[k][j] != '\n' by {
            if k > 0 {
                assert(lines[k] == lines_of(rest)[k - 1]);
            }
        }
    }
}

/// There is one record for each line. Every record has at least one field,
/// and no field holds a comma or a line feed.
pub proof fn csv_rows_are_plain(text: Seq<char>)
    ensures
        csv_rows(text).len() == lines_of(text).len(),
        forall|r: int| 0 <= r < csv_rows(text).len() ==> #[trigger] csv_rows(text)[r].len() >= 1,
        forall|r: int, f: int, j: int|
            0 <= r < csv_rows(text).len() && 0 <= f < csv_rows(text)[r].len() && 0 <= j
                < csv_rows(text)[r][f].len() ==> csv_rows(text)[r][f][j] != ','
                && csv_rows(text)[r][f][j] != '\n',
{
    lines_hold_no_line_feed(text);
    assert forall|r: int| 0 <= r < csv_rows(text).len() implies #[trigger] csv_rows(text)[r].len()
        >= 1 && forall|f: int, j: int|
        0 <= f < csv_rows(text)[r].len() && 0 <= j < csv_rows(text)[r][f].len() ==> csv_rows(
            text,
        )[r][f][j] != ',' && csv_rows(text)[r][f][j] != '\n' by {
        let line = lines_of(text)[r];
        assert(csv_rows(text)[r] == split_on(line, ','));
        split_on_is_inverse_of_joined(line, ',');
        split_on_adds_nothing(line, ',', '\n');
    }
}

/// Where `c` first stands in `chars`.
fn position_of(chars: &[char], c: char) -> (i: usize)
    ensures
        i == first_index_of(chars@, c),
        i <= chars@.len(),
{
    let mut i: usize = 0;
    while i < chars.len() && chars[i] != c
        invariant
            i <= chars.len(),
            forall|k: int| 0 <= k < i ==> chars@[k] != c,
        decreases chars.len() - i,
    {
        i += 1;
    }
    proof {
        lemma_first_index_of(chars@, c, i as int);
    }
    i
}

/// The fields of one line.
pub fn split_fields(line: &[char]) -> (fields: Vec<String>)
    ensures
        fields.deep_view() == split_on(line@, ','),
{
    let mut fields: Vec<String> = Vec::new();
    let mut start: usize = 0;
    assert(line@.skip(0) =~= line@);
    assert(fields.deep_view() + split_on(line@, ',') =~= split_on(line@, ','));
    loop
        invariant_except_break
            start <= line.len(),
            fields.deep_view() + split_on(line@.skip(start as int), ',') == split_on(line@, ','),
        ensures
            fields.deep_view() == split_on(line@, ','),
        decreases line.len() - start,
    {
        let rest = slice_subrange(line, start, line.len());
        assert(rest@ == line@.skip(start as int));
        let i = position_of(rest, ',');
        let field = text_of(slice_subrange(rest, 0, i));
        let ghost before = fields.deep_view();
        fields.push(field);
        assert(fields.deep_view() =~= before.push(rest@.take(i as int)));
        if i >= rest.len() {
            assert(rest@.take(i as int) =~= rest@);
            assert(before + seq![rest@] =~= before.push(rest@));
            break;
        }
        assert(rest@.skip(i + 1) == line@.skip(start + i + 1));
        assert(before + (seq![rest@.take(i as int)] + split_on(rest@.skip(i + 1), ','))
            =~= before.push(rest@.take(i as int)) + split_on(rest@.skip(i + 1), ','));
        start = start + i + 1;
    }
    fields
}

/// The records of `text`.
pub fn parse_rows(text: &str) -> (rows: Vec<Vec<String>>)
    ensures
        rows.deep_view() == csv_rows(text@),
{
    let chars = to_chars(text);
    let mut rows: Vec<Vec<String>> = Vec::new();
    let mut start: usize = 0;
    assert(chars@.skip(0) =~= chars@);
    assert(rows.deep_view() + csv_rows(chars@) =~= csv_rows(chars@));
    while start < chars.len()
        invariant
            chars@ == text@,
            start <= chars.len(),
            rows.deep_view() + csv_rows(chars@.skip(start as int)) == csv_rows(chars@),
        decreases chars.len() - start,
    {
        let rest = slice_subrange(chars.as_slice(), start, chars.len());
        assert(rest@ == chars@.skip(start as int));
        let i = position_of(rest, '\n');
        let ended = i < rest.len();
        let end = if ended && i > 0 && rest[i - 1] == '\r' {
            i - 1
        } else {
            i
        };
        let row = split_fields(slice_subrange(rest, 0, end));
        let ghost before = rows.deep_view();
        let ghost line = if ended {
            without_cr(rest@.take(i as int))
        } else {
            rest@
        };
        assert(rest@.subrange(0, end as int) =~= line);
        rows.push(row);
        assert(rows.deep_view() =~= before.push(split_on(line, ',')));
        let ghost tail = if ended {
            rest@.skip(i + 1)
        } else {
            Seq::<char>::empty()
        };
        assert(lines_of(rest@) =~= seq![line] + lines_of(tail));
        assert(csv_rows(rest@) =~= seq![split_on(line, ',')] + csv_rows(tail));
        assert(before + (seq![split_on(line, ',')] + csv_rows(tail)) =~= before.push(
            split_on(line, ','),
        ) + csv_rows(tail));
        start = if ended {
            start + i + 1
        } else {
            start + i
        };
        assert(chars@.skip(start as int) =~= tail);
    }
    assert(chars@.skip(start as int) =~= Seq::<char>::empty());
    assert(csv_rows(Seq::<char>::empty()) =~= Seq::<Seq<Seq<char>>>::empty());
    assert(rows.deep_view() + Seq::<Seq<Seq<char>>>::empty() =~= rows.deep_view());
    rows
}

} // verus!
