//! Assembly of a commit message from free-form tokens.
//!
//! The tokens are joined with single spaces, every two-character escape made
//! of a backslash and the letter `n` becomes a line break, every line is
//! trimmed, and one trailing blank line is dropped. A separator token splits
//! the tokens into a title and a description, which are assembled apart and
//! joined by an empty line.

use vstd::prelude::*;
use crate::text::{append_str, is_whitespace, string_of, string_views, whitespace};

verus! {

/// The token that parts the title from the description.
pub open spec fn separator() -> Seq<char> {
    seq!['-', '-', 's', 'u', 'b', 'j']
}

/// The parts in order, with `between` after each part but the last.
pub open spec fn joined(parts: Seq<Seq<char>>, between: char) -> Seq<char>
    decreases parts.len(),
{
    if parts.len() == 0 {
        Seq::empty()
    } else if parts.len() == 1 {
        parts[0]
    } else {
        joined(parts.drop_last(), between) + seq![between] + parts.last()
    }
}

/// The text with every backslash that is followed by `n` replaced, together
/// with that `n`, by a line break; the text is read from the left, and what
/// was replaced is not read again.
pub open spec fn expand_escapes(text: Seq<char>) -> Seq<char>
    decreases text.len(),
{
    if text.len() == 0 {
        text
    } else if text.len() >= 2 && text[0] == '\\' && text[1] == 'n' {
        seq!['\n'] + expand_escapes(text.skip(2))
    } else {
        seq![text[0]] + expand_escapes(text.skip(1))
    }
}

/// The lines of the text: what stands between its line breaks. A text with
/// `n` line breaks has `n + 1` lines, so the empty text has one empty line.
pub open spec fn split_lines(text: Seq<char>) -> Seq<Seq<char>>
    decreases text.len(),
{
    if text.len() == 0 {
        seq![Seq::empty()]
    } else {
        let before = split_lines(text.drop_last());
        if text.last() == '\n' {
            before.push(Seq::empty())
        } else {
            before.update(before.len() - 1, before.last().push(text.last()))
        }
    }
}

/// The line without the white space at its start.
pub open spec fn trim_start(line: Seq<char>) -> Seq<char>
    decreases line.len(),
{
    if line.len() > 0 && is_whitespace(line[0]) {
        trim_start(line.skip(1))
    } else {
        line
    }
}

/// The line without the white space at its end.
pub open spec fn trim_end(line: Seq<char>) -> Seq<char>
    decreases line.len(),
{
    if line.len() > 0 && is_whitespace(line.last()) {
        trim_end(line.drop_last())
    } else {
        line
    }
}

/// The line without the white space at its start and at its end.
pub open spec fn trim(line: Seq<char>) -> Seq<char> {
    trim_end(trim_start(line))
}

/// Every line trimmed.
pub open spec fn trim_each(lines: Seq<Seq<char>>) -> Seq<Seq<char>> {
    Seq::new(lines.len(), |i: int| trim(lines[i]))
}

/// The lines without the last one where that one is empty.
pub open spec fn without_trailing_blank(lines: Seq<Seq<char>>) -> Seq<Seq<char>> {
    if lines.len() > 0 && lines.last().len() == 0 {
        lines.drop_last()
    } else {
        lines
    }
}

/// The text with its escapes expanded, its lines trimmed and one trailing
/// blank line dropped.
pub open spec fn normalized(text: Seq<char>) -> Seq<char> {
    joined(without_trailing_blank(trim_each(split_lines(expand_escapes(text)))), '\n')
}

/// Whether the token at `at` is the first separator among the tokens.
pub open spec fn is_first_separator(tokens: Seq<Seq<char>>, at: int) -> bool {
    &&& 0 <= at < tokens.len()
    &&& tokens[at] == separator()
    &&& forall|k: int| 0 <= k < at ==> tokens[k] != separator()
}

/// The message that the tokens stand for. Without a separator it is the
/// normalized text of all tokens. With one, the tokens before the first
/// separator give the title and those after it the description, and the
/// message is the title, an empty line and the description.
pub open spec fn assembled(tokens: Seq<Seq<char>>) -> Seq<char> {
    if exists|at: int| is_first_separator(tokens, at) {
        let at = choose|at: int| is_first_separator(tokens, at);
        normalized(joined(tokens.take(at), ' ')) + seq!['\n', '\n'] + normalized(
            joined(tokens.skip(at + 1), ' '),
        )
    } else {
        normalized(joined(tokens, ' '))
    }
}

/// What a list of lines stands for, line by line.
pub open spec fn line_views(lines: Seq<Vec<char>>) -> Seq<Seq<char>> {
    Seq::new(lines.len(), |i: int| lines[i]@)
}

fn expand(text: &Vec<char>) -> (out: Vec<char>)
    ensures
        out@ == expand_escapes(text@),
{
    let mut out: Vec<char> = Vec::new();
    let mut i: usize = 0;
    assert(text@.skip(0) =~= text@);
    while i < text.len()
        invariant
            i <= text.len(),
            out@ + expand_escapes(text@.skip(i as int)) == expand_escapes(text@),
        decreases text.len() - i,
    {
        let ghost rest = text@.skip(i as int);
        if text[i] == '\\' && i + 1 < text.len() && text[i + 1] == 'n' {
            assert(rest.skip(2) =~= text@.skip(i + 2));
            assert(out@.push('\n') + expand_escapes(text@.skip(i + 2)) =~= out@ + (seq!['\n']
                + expand_escapes(rest.skip(2))));
            out.push('\n');
            i += 2;
        } else {
            assert(rest.skip(1) =~= text@.skip(i + 1));
            assert(out@.push(rest[0]) + expand_escapes(text@.skip(i + 1)) =~= out@ + (seq![
                rest[0],
            ] + expand_escapes(rest.skip(1))));
            out.push(text[i]);
            i += 1;
        }
    }
    assert(expand_escapes(text@.skip(i as int)) =~= Seq::<char>::empty());
    assert(out@ + Seq::<char>::empty() =~= out@);
    out
}

fn split(text: &Vec<char>) -> (lines: Vec<Vec<char>>)
    ensures
        line_views(lines@) == split_lines(text@),
{
    let mut lines: Vec<Vec<char>> = Vec::new();
    let mut current: Vec<char> = Vec::new();
    let mut i: usize = 0;
    assert(text@.take(0) =~= Seq::<char>::empty());
    assert(line_views(lines@).push(current@) =~= split_lines(text@.take(0)));
    while i < text.len()
        invariant
            i <= text.len(),
            line_views(lines@).push(current@) == split_lines(text@.take(i as int)),
        decreases text.len() - i,
    {
        let ghost before = split_lines(text@.take(i as int));
        assert(text@.take(i + 1).drop_last() =~= text@.take(i as int));
        assert(text@.take(i + 1).last() == text@[i as int]);
        if text[i] == '\n' {
            let ghost done = line_views(lines@);
            lines.push(current);
            current = Vec::new();
            assert(line_views(lines@) =~= before);
            assert(line_views(lines@).push(current@) =~= before.push(Seq::empty()));
        } else {
            current.push(text[i]);
            assert(line_views(lines@).push(current@) =~= before.update(
                before.len() - 1,
                before.last().push(text@[i as int]),
            ));
        }
        i += 1;
    }
    assert(text@.take(i as int) =~= text@);
    let ghost done = line_views(lines@);
    lines.push(current);
    assert(line_views(lines@) =~= done.push(current@));
    lines
}

proof fn lemma_trim_start(line: Seq<char>, start: int)
    requires
        0 <= start <= line.len(),
        forall|j: int| 0 <= j < start ==> is_whitespace(line[j]),
        start == line.len() || !is_whitespace(line[start]),
    ensures
        trim_start(line) == line.skip(start),
    decreases start,
{
    if start == 0 {
        assert(line.skip(0) =~= line);
    } else {
        lemma_trim_start(line.skip(1), start - 1);
        assert(line.skip(1).skip(start - 1) =~= line.skip(start));
    }
}

proof fn lemma_trim_end(line: Seq<char>, end: int)
    requires
        0 <= end <= line.len(),
        forall|j: int| end <= j < line.len() ==> is_whitespace(line[j]),
        end == 0 || !is_whitespace(line[end - 1]),
    ensures
        trim_end(line) == line.take(end),
    decreases line.len() - end,
{
    if end == line.len() {
        assert(line.take(end) =~= line);
    } else {
        lemma_trim_end(line.drop_last(), end);
        assert(line.drop_last().take(end) =~= line.take(end));
    }
}

fn trim_line(line: &Vec<char>) -> (out: Vec<char>)
    ensures
        out@ == trim(line@),
{
    let mut start: usize = 0;
    while start < line.len() && whitespace(line[start])
        invariant
            start <= line.len(),
            forall|j: int| 0 <= j < start ==> is_whitespace(line@[j]),
        decreases line.len() - start,
    {
        start += 1;
    }
    let mut end: usize = line.len();
    while end > start && whitespace(line[end - 1])
        invariant
            start <= end <= line.len(),
            forall|j: int| end <= j < line.len() ==> is_whitespace(line@[j]),
        decreases end,
    {
        end -= 1;
    }
    proof {
        lemma_trim_start(line@, start as int);
        let tail = line@.skip(start as int);
        assert(forall|j: int| end - start <= j < tail.len() ==> tail[j] == line@[j + start]);
        lemma_trim_end(tail, end - start);
        assert(tail.take(end - start) =~= line@.subrange(start as int, end as int));
    }
    let mut out: Vec<char> = Vec::new();
    let mut i: usize = start;
    while i < end
        invariant
            start <= i <= end <= line.len(),
            out@ == line@.subrange(start as int, i as int),
        decreases end - i,
    {
        out.push(line[i]);
        assert(line@.subrange(start as int, i + 1) =~= line@.subrange(start as int, i as int).push(
            line@[i as int],
        ));
        i += 1;
    }
    out
}

fn join_lines(lines: &Vec<Vec<char>>, count: usize) -> (out: Vec<char>)
    requires
        count <= lines.len(),
    ensures
        out@ == joined(line_views(lines@).take(count as int), '\n'),
{
    let mut out: Vec<char> = Vec::new();
    let mut i: usize = 0;
    let ghost all = line_views(lines@);
    assert(all.take(0) =~= Seq::<Seq<char>>::empty());
    while i < count
        invariant
            i <= count <= lines.len(),
            all == line_views(lines@),
            out@ == joined(all.take(i as int), '\n'),
        decreases count - i,
    {
        assert(all.take(i + 1).drop_last() =~= all.take(i as int));
        assert(all.take(i + 1).last() == lines@[i as int]@);
        if i > 0 {
            out.push('\n');
        }
        let line = &lines[i];
        let ghost before = out@;
        let mut j: usize = 0;
        while j < line.len()
            invariant
                j <= line.len(),
                out@ == before + line@.take(j as int),
            decreases line.len() - j,
        {
            out.push(line[j]);
            assert(line@.take(j + 1) =~= line@.take(j as int).push(line@[j as int]));
            assert(out@ =~= before + line@.take(j + 1));
            j += 1;
        }
        assert(line@.take(j as int) =~= line@);
        assert(out@ =~= joined(all.take(i + 1), '\n'));
        i += 1;
    }
    out
}

/// The text with its escapes expanded, its lines trimmed and one trailing
/// blank line dropped.
pub fn normalize(text: &Vec<char>) -> (out: Vec<char>)
    ensures
        out@ == normalized(text@),
{
    let expanded = expand(text);
    let lines = split(&expanded);
    let mut trimmed: Vec<Vec<char>> = Vec::new();
    let mut i: usize = 0;
    while i < lines.len()
        invariant
            i <= lines.len(),
            line_views(trimmed@) == trim_each(line_views(lines@)).take(i as int),
        decreases lines.len() - i,
    {
        let ghost before = line_views(trimmed@);
        let line = trim_line(&lines[i]);
        trimmed.push(line);
        assert(line_views(trimmed@) =~= before.push(trim(lines@[i as int]@)));
        assert(line_views(trimmed@) =~= trim_each(line_views(lines@)).take(i + 1));
        i += 1;
    }
    assert(trim_each(line_views(lines@)).take(i as int) =~= trim_each(line_views(lines@)));
    let mut count: usize = trimmed.len();
    if count > 0 && trimmed[count - 1].len() == 0 {
        count -= 1;
        assert(line_views(trimmed@).take(count as int) =~= line_views(trimmed@).drop_last());
    } else {
        assert(line_views(trimmed@).take(count as int) =~= line_views(trimmed@));
    }
    join_lines(&trimmed, count)
}

fn join_tokens(tokens: &Vec<String>, from: usize, to: usize) -> (out: Vec<char>)
    requires
        from <= to <= tokens.len(),
    ensures
        out@ == joined(string_views(tokens@).subrange(from as int, to as int), ' '),
{
    let mut out: Vec<char> = Vec::new();
    let mut i: usize = from;
    let ghost all = string_views(tokens@);
    assert(all.subrange(from as int, from as int) =~= Seq::<Seq<char>>::empty());
    while i < to
        invariant
            from <= i <= to <= tokens.len(),
            all == string_views(tokens@),
            out@ == joined(all.subrange(from as int, i as int), ' '),
        decreases to - i,
    {
        assert(all.subrange(from as int, i + 1).drop_last() =~= all.subrange(
            from as int,
            i as int,
        ));
        assert(all.subrange(from as int, i + 1).last() == tokens@[i as int]@);
        if i > from {
            out.push(' ');
        }
        append_str(&mut out, tokens[i].as_str());
        assert(out@ =~= joined(all.subrange(from as int, i + 1), ' '));
        i += 1;
    }
    out
}

fn find_separator(tokens: &Vec<String>) -> (found: Option<usize>)
    ensures
        match found {
            Some(at) => is_first_separator(string_views(tokens@), at as int),
            None => !exists|at: int| is_first_separator(string_views(tokens@), at),
        },
{
    let mark = String::from_str("--subj");
    proof {
        reveal_strlit("--subj");
        assert(mark@ =~= separator());
    }
    let mut i: usize = 0;
    while i < tokens.len()
        invariant
            i <= tokens.len(),
            mark@ == separator(),
            forall|k: int| 0 <= k < i ==> string_views(tokens@)[k] != separator(),
        decreases tokens.len() - i,
    {
        if tokens[i] == mark {
            return Some(i);
        }
        i += 1;
    }
    None
}

/// The message that the tokens stand for.
pub fn assemble_message(tokens: &Vec<String>) -> (message: String)
    ensures
        message@ == assembled(string_views(tokens@)),
{
    let ghost all = string_views(tokens@);
    match find_separator(tokens) {
        Some(at) => {
            proof {
                let chosen = choose|k: int| is_first_separator(all, k);
                assert(chosen == at);
                assert(all.subrange(0, at as int) =~= all.take(at as int));
                assert(all.subrange(at + 1, tokens.len() as int) =~= all.skip(at + 1));
            }
            let mut message = normalize(&join_tokens(tokens, 0, at));
            let description = normalize(&join_tokens(tokens, at + 1, tokens.len()));
            let ghost title = message@;
            message.push('\n');
            message.push('\n');
            let mut i: usize = 0;
            while i < description.len()
                invariant
                    i <= description.len(),
                    message@ == title + seq!['\n', '\n'] + description@.take(i as int),
                decreases description.len() - i,
            {
                message.push(description[i]);
                assert(description@.take(i + 1) =~= description@.take(i as int).push(
                    description@[i as int],
                ));
                i += 1;
            }
            assert(description@.take(i as int) =~= description@);
            string_of(&message)
        },
        None => {
            assert(all.subrange(0, tokens.len() as int) =~= all);
            string_of(&normalize(&join_tokens(tokens, 0, tokens.len())))
        },
    }
}

/// Whether the text holds no backslash that is followed by `n`.
pub open spec fn has_no_escape(text: Seq<char>) -> bool {
    forall|i: int| 0 <= i < text.len() - 1 ==> !(text[i] == '\\' && #[trigger] text[i + 1] == 'n')
}

/// Whether a message is what normalizing leaves alone: it holds no escape,
/// no line of it starts or ends with white space, and it does not end with
/// a blank line.
pub open spec fn is_normalized(message: Seq<char>) -> bool {
    &&& has_no_escape(message)
    &&& forall|k: int|
        0 <= k < split_lines(message).len() ==> trim(#[trigger] split_lines(message)[k])
            == split_lines(message)[k]
    &&& message.len() > 0 ==> split_lines(message).last().len() > 0
}

/// A text always has at least one line.
pub proof fn law_text_has_a_line(text: Seq<char>)
    ensures
        split_lines(text).len() >= 1,
    decreases text.len(),
{
    if text.len() > 0 {
        law_text_has_a_line(text.drop_last());
    }
}

/// The lines of a text, joined by line breaks, give the text back.
pub proof fn law_lines_join_back(text: Seq<char>)
    ensures
        joined(split_lines(text), '\n') == text,
    decreases text.len(),
{
    if text.len() == 0 {
        assert(joined(split_lines(text), '\n') =~= text);
    } else {
        let before = split_lines(text.drop_last());
        law_text_has_a_line(text.drop_last());
        law_lines_join_back(text.drop_last());
        let lines = split_lines(text);
        assert(text =~= text.drop_last().push(text.last()));
        if text.last() == '\n' {
            assert(lines.drop_last() =~= before);
            assert(joined(lines, '\n') =~= joined(before, '\n') + seq!['\n'] + Seq::<char>::empty());
            assert(joined(lines, '\n') =~= text);
        } else if before.len() == 1 {
            assert(joined(lines, '\n') =~= joined(before, '\n').push(text.last()));
        } else {
            assert(lines.drop_last() =~= before.drop_last());
            assert(joined(lines, '\n') =~= joined(before, '\n').push(text.last()));
        }
    }
}

/// No line of a text holds a line break.
pub proof fn law_lines_hold_no_break(text: Seq<char>, k: int, i: int)
    requires
        0 <= k < split_lines(text).len(),
        0 <= i < split_lines(text)[k].len(),
    ensures
        split_lines(text)[k][i] != '\n',
    decreases text.len(),
{
    if text.len() > 0 {
        let before = split_lines(text.drop_last());
        law_text_has_a_line(text.drop_last());
        if text.last() == '\n' {
            law_lines_hold_no_break(text.drop_last(), k, i);
        } else if k < before.len() - 1 {
            law_lines_hold_no_break(text.drop_last(), k, i);
        } else if i < before.last().len() {
            law_lines_hold_no_break(text.drop_last(), k, i);
        }
    }
}

/// A text without escapes is its own expansion.
pub proof fn law_expansion_without_escapes(text: Seq<char>)
    requires
        has_no_escape(text),
    ensures
        expand_escapes(text) == text,
    decreases text.len(),
{
    if text.len() > 0 {
        let rest = text.skip(1);
        assert forall|i: int| 0 <= i < rest.len() - 1 implies !(rest[i] == '\\' && #[trigger] rest[i
            + 1] == 'n') by {
            assert(rest[i] == text[i + 1]);
            assert(rest[i + 1] == text[i + 1 + 1]);
        }
        law_expansion_without_escapes(rest);
        if text.len() >= 2 {
            assert(!(text[0] == '\\' && text[0int + 1] == 'n'));
        }
        assert(seq![text[0]] + rest =~= text);
    }
}

/// Normalizing leaves a normalized text as it is.
pub proof fn law_normalized_is_fixed(message: Seq<char>)
    requires
        is_normalized(message),
    ensures
        normalized(message) == message,
{
    law_expansion_without_escapes(message);
    law_text_has_a_line(message);
    law_lines_join_back(message);
    let lines = split_lines(message);
    assert(trim_each(lines) =~= lines);
    if message.len() == 0 {
        assert(lines =~= seq![Seq::<char>::empty()]);
        assert(without_trailing_blank(lines) =~= Seq::<Seq<char>>::empty());
    }
}

/// Whether the text holds no line break.
pub open spec fn has_no_break(text: Seq<char>) -> bool {
    forall|i: int| 0 <= i < text.len() ==> #[trigger] text[i] != '\n'
}

proof fn lemma_expansion_length(text: Seq<char>)
    ensures
        text.len() > 0 ==> expand_escapes(text).len() > 0,
        text.len() > 0 ==> expand_escapes(text)[0] == '\n' || (expand_escapes(text)[0] == text[0]
            && !(text.len() >= 2 && text[0] == '\\' && text[1] == 'n')),
{
}

/// The expansion of a text holds no escape.
pub proof fn law_expansion_holds_no_escape(text: Seq<char>)
    ensures
        has_no_escape(expand_escapes(text)),
    decreases text.len(),
{
    let out = expand_escapes(text);
    if text.len() > 0 {
        if text.len() >= 2 && text[0] == '\\' && text[1] == 'n' {
            let rest = expand_escapes(text.skip(2));
            law_expansion_holds_no_escape(text.skip(2));
            assert forall|i: int| 0 <= i < out.len() - 1 implies !(out[i] == '\\'
                && #[trigger] out[i + 1] == 'n') by {
                if i > 0 {
                    assert(out[i] == rest[i - 1]);
                    assert(out[i + 1] == rest[i - 1 + 1]);
                }
            }
        } else {
            let rest = expand_escapes(text.skip(1));
            law_expansion_holds_no_escape(text.skip(1));
            lemma_expansion_length(text.skip(1));
            assert forall|i: int| 0 <= i < out.len() - 1 implies !(out[i] == '\\'
                && #[trigger] out[i + 1] == 'n') by {
                if i > 0 {
                    assert(out[i] == rest[i - 1]);
                    assert(out[i + 1] == rest[i - 1 + 1]);
                } else {
                    assert(out[0] == text[0]);
                    assert(out[1] == rest[0]);
                    assert(text.skip(1).len() > 0);
                    assert(text.skip(1)[0] == text[1]);
                }
            }
        }
    }
}

proof fn lemma_last_line_end(text: Seq<char>)
    ensures
        split_lines(text).len() >= 1,
        split_lines(text).last().len() > 0 ==> text.len() > 0 && split_lines(text).last().last()
            == text.last(),
{
    law_text_has_a_line(text);
    if text.len() > 0 {
        law_text_has_a_line(text.drop_last());
    }
}

proof fn lemma_lines_hold_no_escape(text: Seq<char>, k: int)
    requires
        has_no_escape(text),
        0 <= k < split_lines(text).len(),
    ensures
        has_no_escape(split_lines(text)[k]),
    decreases text.len(),
{
    if text.len() > 0 {
        let shorter = text.drop_last();
        let before = split_lines(shorter);
        law_text_has_a_line(shorter);
        assert forall|i: int| 0 <= i < shorter.len() - 1 implies !(shorter[i] == '\\'
            && #[trigger] shorter[i + 1] == 'n') by {
            assert(shorter[i] == text[i]);
            assert(shorter[i + 1] == text[i + 1]);
        }
        if text.last() == '\n' {
            if k < before.len() {
                lemma_lines_hold_no_escape(shorter, k);
            }
        } else if k < before.len() - 1 {
            lemma_lines_hold_no_escape(shorter, k);
        } else {
            lemma_lines_hold_no_escape(shorter, k);
            lemma_last_line_end(shorter);
            let old = before.last();
            let line = old.push(text.last());
            assert(split_lines(text)[k] == line);
            assert forall|i: int| 0 <= i < line.len() - 1 implies !(line[i] == '\\'
                && #[trigger] line[i + 1] == 'n') by {
                if i + 1 < old.len() {
                    assert(line[i] == old[i]);
                    assert(line[i + 1] == old[i + 1]);
                } else {
                    assert(line[i] == old.last());
                    assert(old.last() == shorter.last());
                    assert(shorter.last() == text[text.len() - 2]);
                    assert(line[i + 1] == text[text.len() - 2 + 1]);
                }
            }
        }
    }
}

proof fn lemma_trim_start_keeps(line: Seq<char>)
    ensures
        has_no_escape(line) ==> has_no_escape(trim_start(line)),
        has_no_break(line) ==> has_no_break(trim_start(line)),
        trim_start(line).len() == 0 || !is_whitespace(trim_start(line)[0]),
    decreases line.len(),
{
    if line.len() > 0 && is_whitespace(line[0]) {
        let rest = line.skip(1);
        lemma_trim_start_keeps(rest);
        if has_no_escape(line) {
            assert forall|i: int| 0 <= i < rest.len() - 1 implies !(rest[i] == '\\'
                && #[trigger] rest[i + 1] == 'n') by {
                assert(rest[i] == line[i + 1]);
                assert(rest[i + 1] == line[i + 1 + 1]);
            }
        }
        if has_no_break(line) {
            assert forall|i: int| 0 <= i < rest.len() implies #[trigger] rest[i] != '\n' by {
                assert(rest[i] == line[i + 1]);
            }
        }
    }
}

proof fn lemma_trim_end_keeps(line: Seq<char>)
    ensures
        has_no_escape(line) ==> has_no_escape(trim_end(line)),
        has_no_break(line) ==> has_no_break(trim_end(line)),
        trim_end(line).len() == 0 || !is_whitespace(trim_end(line).last()),
        trim_end(line).len() > 0 ==> trim_end(line)[0] == line[0],
    decreases line.len(),
{
    if line.len() > 0 && is_whitespace(line.last()) {
        let rest = line.drop_last();
        lemma_trim_end_keeps(rest);
        if has_no_escape(line) {
            assert forall|i: int| 0 <= i < rest.len() - 1 implies !(rest[i] == '\\'
                && #[trigger] rest[i + 1] == 'n') by {
                assert(rest[i] == line[i]);
                assert(rest[i + 1] == line[i + 1]);
            }
        }
        if has_no_break(line) {
            assert forall|i: int| 0 <= i < rest.len() implies #[trigger] rest[i] != '\n' by {
                assert(rest[i] == line[i]);
            }
        }
    }
}

/// Trimming a trimmed line changes nothing.
pub proof fn law_trim_is_idempotent(line: Seq<char>)
    ensures
        trim(trim(line)) == trim(line),
{
    lemma_trim_start_keeps(line);
    lemma_trim_end_keeps(trim_start(line));
    let trimmed = trim(line);
    lemma_trim_start(trimmed, 0);
    assert(trimmed.skip(0) =~= trimmed);
    lemma_trim_end(trimmed, trimmed.len() as int);
    assert(trimmed.take(trimmed.len() as int) =~= trimmed);
}

proof fn lemma_joined_holds_no_escape(lines: Seq<Seq<char>>)
    requires
        forall|k: int| 0 <= k < lines.len() ==> has_no_escape(#[trigger] lines[k]),
    ensures
        has_no_escape(joined(lines, '\n')),
    decreases lines.len(),
{
    if lines.len() > 1 {
        let front = joined(lines.drop_last(), '\n');
        let last = lines.last();
        let out = joined(lines, '\n');
        assert forall|k: int| 0 <= k < lines.drop_last().len() implies has_no_escape(
            #[trigger] lines.drop_last()[k],
        ) by {
            assert(lines.drop_last()[k] == lines[k]);
        }
        lemma_joined_holds_no_escape(lines.drop_last());
        assert(has_no_escape(last));
        assert(out =~= front + seq!['\n'] + last);
        assert forall|i: int| 0 <= i < out.len() - 1 implies !(out[i] == '\\'
            && #[trigger] out[i + 1] == 'n') by {
            if i + 1 < front.len() {
                assert(out[i] == front[i]);
                assert(out[i + 1] == front[i + 1]);
            } else if i + 1 == front.len() {
                assert(out[i + 1] == '\n');
            } else if i == front.len() {
                assert(out[i] == '\n');
            } else {
                let j = i - front.len() - 1;
                assert(out[i] == last[j]);
                assert(out[i + 1] == last[j + 1]);
            }
        }
    } else if lines.len() == 1 {
        assert(has_no_escape(lines[0]));
    }
}

proof fn lemma_lines_of_appended(text: Seq<char>, more: Seq<char>)
    requires
        has_no_break(more),
    ensures
        split_lines(text).len() >= 1,
        split_lines(text + more) == split_lines(text).update(
            split_lines(text).len() - 1,
            split_lines(text).last() + more,
        ),
    decreases more.len(),
{
    let lines = split_lines(text);
    law_text_has_a_line(text);
    if more.len() == 0 {
        assert(text + more =~= text);
        assert(lines.last() + more =~= lines.last());
        assert(lines.update(lines.len() - 1, lines.last()) =~= lines);
    } else {
        let shorter = more.drop_last();
        assert forall|i: int| 0 <= i < shorter.len() implies #[trigger] shorter[i] != '\n' by {
            assert(shorter[i] == more[i]);
        }
        lemma_lines_of_appended(text, shorter);
        assert((text + more).drop_last() =~= text + shorter);
        assert((text + more).last() == more.last());
        assert(more[more.len() - 1] != '\n');
        let before = split_lines(text + shorter);
        assert((lines.last() + shorter).push(more.last()) =~= lines.last() + more);
        assert(before.update(before.len() - 1, before.last().push(more.last())) =~= lines.update(
            lines.len() - 1,
            lines.last() + more,
        ));
    }
}

/// Lines without line breaks, joined by line breaks, are the lines of what
/// they are joined to.
pub proof fn law_joined_lines_split_back(lines: Seq<Seq<char>>)
    requires
        lines.len() >= 1,
        forall|k: int| 0 <= k < lines.len() ==> has_no_break(#[trigger] lines[k]),
    ensures
        split_lines(joined(lines, '\n')) == lines,
    decreases lines.len(),
{
    let empty = Seq::<char>::empty();
    if lines.len() == 1 {
        assert(has_no_break(lines[0]));
        lemma_lines_of_appended(empty, lines[0]);
        assert(empty + lines[0] =~= lines[0]);
        assert(split_lines(empty) =~= seq![empty]);
        assert(split_lines(lines[0]) =~= lines);
    } else {
        let front = lines.drop_last();
        assert forall|k: int| 0 <= k < front.len() implies has_no_break(#[trigger] front[k]) by {
            assert(front[k] == lines[k]);
        }
        law_joined_lines_split_back(front);
        let text = joined(front, '\n') + seq!['\n'];
        assert(text.drop_last() =~= joined(front, '\n'));
        assert(text.last() == '\n');
        assert(split_lines(text) =~= front.push(empty));
        assert(has_no_break(lines.last()));
        lemma_lines_of_appended(text, lines.last());
        assert(joined(lines, '\n') =~= text + lines.last());
        assert(empty + lines.last() =~= lines.last());
        assert(split_lines(text + lines.last()) =~= lines);
    }
}

/// What normalizing gives is normalized, and so is left alone by another
/// normalizing, unless the text ends with more than one blank line: then one
/// of them is still there.
pub proof fn law_normalizing_normalizes(text: Seq<char>)
    requires
        ({
            let kept = without_trailing_blank(trim_each(split_lines(expand_escapes(text))));
            kept.len() == 0 || kept.last().len() > 0
        }),
    ensures
        is_normalized(normalized(text)),
        normalized(normalized(text)) == normalized(text),
{
    let expanded = expand_escapes(text);
    let lines = split_lines(expanded);
    let trimmed = trim_each(lines);
    let kept = without_trailing_blank(trimmed);
    let out = normalized(text);
    law_expansion_holds_no_escape(text);
    law_text_has_a_line(expanded);
    assert forall|k: int| 0 <= k < kept.len() implies has_no_escape(#[trigger] kept[k])
        && has_no_break(kept[k]) && trim(kept[k]) == kept[k] by {
        assert(kept[k] == trim(lines[k]));
        lemma_lines_hold_no_escape(expanded, k);
        assert forall|i: int| 0 <= i < lines[k].len() implies #[trigger] lines[k][i] != '\n' by {
            law_lines_hold_no_break(expanded, k, i);
        }
        lemma_trim_start_keeps(lines[k]);
        lemma_trim_end_keeps(trim_start(lines[k]));
        law_trim_is_idempotent(lines[k]);
    }
    lemma_joined_holds_no_escape(kept);
    if kept.len() == 0 {
        assert(out =~= Seq::<char>::empty());
        assert(split_lines(out) =~= seq![Seq::<char>::empty()]);
    } else {
        law_joined_lines_split_back(kept);
    }
    law_normalized_is_fixed(out);
}

/// Assembly is idempotent on normalized input: a normalized message, given
/// as the only token, is assembled to itself. The separator itself is left
/// out, since as a token it parts an empty title from an empty description.
pub proof fn law_assembly_keeps_normalized(message: Seq<char>)
    requires
        is_normalized(message),
        message != separator(),
    ensures
        assembled(seq![message]) == message,
{
    let tokens = seq![message];
    assert(!exists|at: int| is_first_separator(tokens, at));
    law_normalized_is_fixed(message);
}

} // verus!
