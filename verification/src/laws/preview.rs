//! Laws of the preview of a file.

use vstd::prelude::*;

use crate::laws::text::single_line;
use crate::preview::{
    column, gap, is_control, load_decision, payload_of, sanitized, spaces, LoadActionView,
    LoadEvent, PayloadView, PreviewView, PREVIEW_BYTE_LIMIT,
};
use crate::text::utf8_lossy;

verus! {

/// The smaller of two lengths.
pub open spec fn shorter(a: int, b: int) -> int {
    if a <= b {
        a
    } else {
        b
    }
}

/// A file counts as binary if and only if a zero byte stands anywhere among the bytes that are
/// shown, the first [`PREVIEW_BYTE_LIMIT`] of those read. Any other file is shown as text: all of
/// these bytes, and marked as truncated if and only if there were more.
pub proof fn zero_bytes_make_a_file_binary(read: Seq<u8>)
    ensures
        payload_of(read) is Binary <==> exists|i: int|
            0 <= i < shorter(read.len() as int, 65536) && #[trigger] read[i] == 0,
        !(payload_of(read) is Binary) ==> payload_of(read) == (PayloadView::Text {
            content: sanitized(utf8_lossy(read.take(shorter(read.len() as int, 65536)))),
            truncated: read.len() > 65536,
        }),
{
    let n = shorter(read.len() as int, 65536);
    let kept = read.take(n);
    assert(kept == if read.len() > PREVIEW_BYTE_LIMIT {
        read.take(PREVIEW_BYTE_LIMIT as int)
    } else {
        read
    });
    if kept.contains(0) {
        let i = choose|i: int| 0 <= i < kept.len() && kept[i] == 0;
        assert(read[i] == 0);
    }
    if exists|i: int| 0 <= i < n && #[trigger] read[i] == 0 {
        let i = choose|i: int| 0 <= i < n && #[trigger] read[i] == 0;
        assert(kept[i] == 0);
        assert(kept.contains(0));
    }
}

proof fn lemma_after_line_feed(a: Seq<char>, b: Seq<char>)
    ensures
        sanitized(a.push('\n') + b) == sanitized(a).push('\n') + sanitized(b),
        column(a.push('\n') + b) == column(b),
    decreases b.len(),
{
    let s = a.push('\n') + b;
    if b.len() == 0 {
        assert(s == a.push('\n'));
        assert(s.drop_last() == a);
        assert(sanitized(a).push('\n') + sanitized(b) == sanitized(a).push('\n'));
    } else {
        lemma_after_line_feed(a, b.drop_last());
        assert(s.drop_last() == a.push('\n') + b.drop_last());
        assert(s.last() == b.last());
        assert(sanitized(s) =~= sanitized(a).push('\n') + sanitized(b));
    }
}

/// Lines are made safe one by one: a line feed is kept, and nothing before it matters behind it.
pub proof fn lines_are_made_safe_one_by_one(a: Seq<char>, b: Seq<char>)
    ensures
        sanitized(a.push('\n') + b) == sanitized(a).push('\n') + sanitized(b),
        sanitized(Seq::<char>::empty()).len() == 0,
{
    lemma_after_line_feed(a, b);
}

proof fn lemma_column_is_the_length(line: Seq<char>)
    requires
        single_line(line),
    ensures
        column(line) == sanitized(line).len(),
    decreases line.len(),
{
    if line.len() > 0 {
        assert forall|i: int| 0 <= i < line.drop_last().len() implies #[trigger] line.drop_last()[i]
            != '\n' by {
            assert(line.drop_last()[i] == line[i]);
        }
        lemma_column_is_the_length(line.drop_last());
        assert(line.last() == line[line.len() - 1]);
    }
}

/// Within a line a printable character is kept, a tab becomes the spaces up to the next multiple
/// of eight columns, at least one, and any other control character becomes one space. With the
/// law on line feeds this says what becomes of any text.
pub proof fn characters_are_made_safe_in_place(line: Seq<char>, c: char)
    requires
        single_line(line),
    ensures
        !is_control(c) ==> sanitized(line.push(c)) == sanitized(line).push(c),
        is_control(c) && c != '\t' && c != '\n' ==> sanitized(line.push(c)) == sanitized(
            line,
        ).push(' '),
        ({
            let before = sanitized(line);
            let after = sanitized(line.push('\t'));
            &&& before.len() < after.len() <= before.len() + 8
            &&& after.len() % 8 == 0
            &&& before.is_prefix_of(after)
            &&& forall|i: int| before.len() <= i < after.len() ==> #[trigger] after[i] == ' '
        }),
{
    lemma_column_is_the_length(line);
    assert(line.push(c).drop_last() == line);
    assert(line.push('\t').drop_last() == line);
    let before = sanitized(line);
    let after = sanitized(line.push('\t'));
    assert(after == before + spaces(gap(column(line))));
}

/// The control characters are those below the space and those from U+007F to U+009F.
pub proof fn control_characters_lie_in_two_ranges(c: char)
    ensures
        is_control(c) == (c < ' ' || '\u{7f}' <= c <= '\u{9f}'),
{
}

/// A preview that was cancelled before it was read has no outcome, and one that was not is read.
/// A read that failed gives its reason. What was read is shown unless it was cancelled meanwhile.
pub proof fn cancelled_previews_have_no_outcome(bytes: Vec<u8>, reason: String, cancelled: bool)
    ensures
        load_decision(LoadEvent::Asked { cancelled: true }) == LoadActionView::Done(None),
        load_decision(LoadEvent::Asked { cancelled: false }) == LoadActionView::Read,
        load_decision(LoadEvent::Read { read: Err(reason), cancelled }) == LoadActionView::Done(
            Some(PayloadView::Error(reason@)),
        ),
        load_decision(LoadEvent::Read { read: Ok(bytes), cancelled: true })
            == LoadActionView::Done(None),
        load_decision(LoadEvent::Read { read: Ok(bytes), cancelled: false })
            == LoadActionView::Done(Some(payload_of(bytes@))),
{
}

/// The preview that a read gives belongs to the file that was read and holds what was read.
pub proof fn previews_hold_what_was_read(payload: PayloadView, path: Seq<u8>)
    ensures
        payload.preview_of(path).path() == Some(path),
        payload matches PayloadView::Text { content, truncated } ==> payload.preview_of(path)
            == (PreviewView::Text { path, content, truncated }),
        payload matches PayloadView::Error(message) ==> payload.preview_of(path)
            == (PreviewView::Error { path, message }),
        payload is Binary ==> payload.preview_of(path) == (PreviewView::Binary { path }),
        PreviewView::Loading(path).path() == Some(path),
        PreviewView::Idle.path() is None,
{
}

} // verus!
