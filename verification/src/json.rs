//! Layout of serialized JSON text: the extra indentation of a pretty form.

use vstd::prelude::*;
use vstd::std_specs::iter::IteratorSpec;
use vstd::seq_lib::lemma_flatten_concat;
use crate::csv::{first_index_of, lemma_first_index_of, lemma_first_index_of_is_first, split_on};
use crate::text::push_char;

verus! {

/// The two forms in which a value is serialized.
#[derive(Clone, Copy, Debug, PartialEq, Eq)]
pub enum JsonForm {
    /// On one line, without spaces between the tokens.
    Compact,
    /// One member or element per line, indented by the serializer.
    Pretty,
}

impl JsonForm {
    /// The form to serialize in: pretty where a `space` is given, whatever
    /// its value, compact where none is.
    pub fn for_space(space: Option<usize>) -> (form: JsonForm)
        ensures
            form == (match space {
                Some(_) => JsonForm::Pretty,
                None => JsonForm::Compact,
            }),
    {
        match space {
            Some(_) => JsonForm::Pretty,
            None => JsonForm::Compact,
        }
    }
}

/// `width` space characters.
pub open spec fn spaces(width: nat) -> Seq<char> {
    Seq::new(width, |i: int| ' ')
}

/// What stands for `c` in an indented text: a line feed brings `width` spaces
/// after it, every other character stays alone.
pub open spec fn indented_char(c: char, width: nat) -> Seq<char> {
    if c == '\n' {
        seq!['\n'] + spaces(width)
    } else {
        seq![c]
    }
}

/// `text` with `width` spaces put in behind each of its line feeds. The text is
/// not read as JSON: a line that is already indented only gets deeper.
pub open spec fn indented(text: Seq<char>, width: nat) -> Seq<char> {
    text.map_values(|c: char| indented_char(c, width)).flatten()
}

/// Indenting two texts in a row indents each of them.
pub proof fn indented_concat(a: Seq<char>, b: Seq<char>, width: nat)
    ensures
        indented(a + b, width) == indented(a, width) + indented(b, width),
{
    let piece = |c: char| indented_char(c, width);
    assert((a + b).map_values(piece) =~= a.map_values(piece) + b.map_values(piece));
    lemma_flatten_concat(a.map_values(piece), b.map_values(piece));
}

/// A text without a line feed is its own indented form.
pub proof fn indented_line(line: Seq<char>, width: nat)
    requires
        forall|k: int| 0 <= k < line.len() ==> line[k] != '\n',
    ensures
        indented(line, width) == line,
    decreases line.len(),
{
    let piece = |c: char| indented_char(c, width);
    if line.len() == 0 {
        assert(line.map_values(piece) =~= Seq::<Seq<char>>::empty());
        assert(indented(line, width) =~= line);
    } else {
        let rest = line.drop_first();
        indented_line(rest, width);
        assert(line.map_values(piece).drop_first() =~= rest.map_values(piece));
        assert(indented(line, width) =~= seq![line[0]] + indented(rest, width));
        assert(seq![line[0]] + rest =~= line);
    }
}

/// The lines of `head` followed by an indented text, where `head` holds no
/// line feed: the first line of the text behind `head`, and every later line
/// behind the added spaces.
proof fn indented_lines_behind(head: Seq<char>, text: Seq<char>, width: nat)
    requires
        forall|k: int| 0 <= k < head.len() ==> head[k] != '\n',
    ensures
        split_on(head + indented(text, width), '\n').len() == split_on(text, '\n').len(),
        split_on(head + indented(text, width), '\n')[0] == head + split_on(text, '\n')[0],
        forall|k: int|
            1 <= k < split_on(text, '\n').len() ==> split_on(head + indented(text, width), '\n')[k]
                == spaces(width) + split_on(text, '\n')[k],
    decreases text.len(),
{
    lemma_first_index_of_is_first(text, '\n');
    let i = first_index_of(text, '\n') as int;
    let line = text.take(i);
    indented_line(line, width);
    if i >= text.len() {
        assert(line =~= text);
        lemma_first_index_of(head + text, '\n', (head + text).len() as int);
    } else {
        let rest = text.skip(i + 1);
        let whole = head + indented(text, width);
        let next = spaces(width) + indented(rest, width);
        assert(text =~= line + seq!['\n'] + rest);
        indented_concat(line + seq!['\n'], rest, width);
        indented_concat(line, seq!['\n'], width);
        assert(seq!['\n'].map_values(|c: char| indented_char(c, width)) =~= seq![
            indented_char('\n', width),
        ]);
        seq![indented_char('\n', width)].lemma_flatten_singleton();
        assert(indented(seq!['\n'], width) == seq!['\n'] + spaces(width));
        assert(whole =~= (head + line) + seq!['\n'] + next);
        lemma_first_index_of(whole, '\n', head.len() + i);
        assert(whole.take(head.len() + i) =~= head + line);
        assert(whole.skip(head.len() + i + 1) =~= next);
        indented_lines_behind(spaces(width), rest, width);
        let after = split_on(next, '\n');
        let lines = split_on(text, '\n');
        assert(split_on(whole, '\n') =~= seq![head + line] + after);
        assert(lines =~= seq![line] + split_on(rest, '\n'));
        assert forall|k: int| 1 <= k < lines.len() implies split_on(whole, '\n')[k] == spaces(
            width,
        ) + lines[k] by {
            assert(split_on(whole, '\n')[k] == after[k - 1]);
            assert(lines[k] == split_on(rest, '\n')[k - 1]);
        }
    }
}

/// Indenting keeps the lines and their order, and changes none but by the
/// spaces put before it: the first line stays as it is, and every later line
/// is the line it was with exactly `width` more spaces at its start.
pub proof fn indented_lines(text: Seq<char>, width: nat)
    ensures
        split_on(indented(text, width), '\n').len() == split_on(text, '\n').len(),
        split_on(indented(text, width), '\n')[0] == split_on(text, '\n')[0],
        forall|k: int|
            1 <= k < split_on(text, '\n').len() ==> split_on(indented(text, width), '\n')[k]
                == spaces(width) + split_on(text, '\n')[k],
{
    let head = Seq::<char>::empty();
    indented_lines_behind(head, text, width);
    assert(head + indented(text, width) =~= indented(text, width));
    assert(head + split_on(text, '\n')[0] =~= split_on(text, '\n')[0]);
}

/// Puts `width` spaces behind each line feed of `text`.
pub fn indent_line_breaks(text: &str, width: usize) -> (out: String)
    ensures
        out@ == indented(text@, width as nat),
{
    let mut out = String::new();
    let ghost pieces = text@.map_values(|c: char| indented_char(c, width as nat));
    for c in it: text.chars()
        invariant
            it.seq() == text@,
            pieces == text@.map_values(|c: char| indented_char(c, width as nat)),
            out@ == pieces.take(it.index() as int).flatten(),
    {
        let ghost done = pieces.take(it.index() as int);
        let ghost before = out@;
        push_char(&mut out, c);
        if c == '\n' {
            let mut n: usize = 0;
            while n < width
                invariant
                    n <= width,
                    out@ == before + (seq!['\n'] + spaces(n as nat)),
                decreases width - n,
            {
                push_char(&mut out, ' ');
                assert(spaces(n as nat).push(' ') =~= spaces((n + 1) as nat));
                assert(out@ =~= before + (seq!['\n'] + spaces((n + 1) as nat)));
                n += 1;
            }
        }
        assert(out@ =~= before + indented_char(c, width as nat));
        assert(pieces.take(it.index() + 1) =~= done.push(indented_char(c, width as nat)));
        proof {
            done.lemma_flatten_push(indented_char(c, width as nat));
        }
    }
    assert(pieces.take(pieces.len() as int) =~= pieces);
    out
}

} // verus!
