//! What is shown of a file's contents.

use vstd::prelude::*;

use crate::path::FilePath;
use crate::text::{chars_of, text_from_bytes, utf8_lossy};

verus! {

/// Read at most this many bytes for a text preview. A larger file is shown truncated.
pub const PREVIEW_BYTE_LIMIT: usize = 65536;

/// Tab stops are this many columns apart.
pub const TAB_WIDTH: usize = 8;

/// Cached preview for the currently selected file. Directories use `Idle`
/// and are shown from entry metadata instead.
#[derive(Debug, PartialEq, Eq)]
pub enum FilePreview {
    Idle,
    Loading(FilePath),
    Text { path: FilePath, content: String, truncated: bool },
    Binary { path: FilePath },
    Error { path: FilePath, message: String },
}

/// What a [`FilePreview`] says.
pub enum PreviewView {
    Idle,
    Loading(Seq<u8>),
    Text { path: Seq<u8>, content: Seq<char>, truncated: bool },
    Binary { path: Seq<u8> },
    Error { path: Seq<u8>, message: Seq<char> },
}

impl View for FilePreview {
    type V = PreviewView;

    open spec fn view(&self) -> PreviewView {
        match *self {
            FilePreview::Idle => PreviewView::Idle,
            FilePreview::Loading(path) => PreviewView::Loading(path@),
            FilePreview::Text { path, content, truncated } => PreviewView::Text {
                path: path@,
                content: content@,
                truncated,
            },
            FilePreview::Binary { path } => PreviewView::Binary { path: path@ },
            FilePreview::Error { path, message } => PreviewView::Error {
                path: path@,
                message: message@,
            },
        }
    }
}

impl PreviewView {
    /// The file that the preview belongs to.
    pub open spec fn path(self) -> Option<Seq<u8>> {
        match self {
            PreviewView::Idle => None,
            PreviewView::Loading(path) => Some(path),
            PreviewView::Text { path, .. } => Some(path),
            PreviewView::Binary { path } => Some(path),
            PreviewView::Error { path, .. } => Some(path),
        }
    }
}

impl FilePreview {
    /// The file that the preview belongs to.
    pub fn path(&self) -> (r: Option<&FilePath>)
        ensures
            r is Some == self@.path() is Some,
            r matches Some(p) ==> p@ == self@.path()->0,
    {
        match self {
            FilePreview::Idle => None,
            FilePreview::Loading(path) => Some(path),
            FilePreview::Text { path, .. } => Some(path),
            FilePreview::Binary { path } => Some(path),
            FilePreview::Error { path, .. } => Some(path),
        }
    }
}

impl Clone for FilePreview {
    fn clone(&self) -> (r: FilePreview)
        ensures
            r@ == self@,
    {
        match self {
            FilePreview::Idle => FilePreview::Idle,
            FilePreview::Loading(path) => FilePreview::Loading(path.clone()),
            FilePreview::Text { path, content, truncated } => FilePreview::Text {
                path: path.clone(),
                content: content.clone(),
                truncated: *truncated,
            },
            FilePreview::Binary { path } => FilePreview::Binary { path: path.clone() },
            FilePreview::Error { path, message } => FilePreview::Error {
                path: path.clone(),
                message: message.clone(),
            },
        }
    }
}

/// Outcome of a background preview read.
#[derive(Debug, PartialEq, Eq)]
pub enum PreviewPayload {
    Text { content: String, truncated: bool },
    Binary,
    Error(String),
}

/// What a [`PreviewPayload`] says.
pub enum PayloadView {
    Text { content: Seq<char>, truncated: bool },
    Binary,
    Error(Seq<char>),
}

impl View for PreviewPayload {
    type V = PayloadView;

    open spec fn view(&self) -> PayloadView {
        match *self {
            PreviewPayload::Text { content, truncated } => PayloadView::Text {
                content: content@,
                truncated,
            },
            PreviewPayload::Binary => PayloadView::Binary,
            PreviewPayload::Error(message) => PayloadView::Error(message@),
        }
    }
}

impl Clone for PreviewPayload {
    fn clone(&self) -> (r: PreviewPayload)
        ensures
            r@ == self@,
    {
        match self {
            PreviewPayload::Text { content, truncated } => PreviewPayload::Text {
                content: content.clone(),
                truncated: *truncated,
            },
            PreviewPayload::Binary => PreviewPayload::Binary,
            PreviewPayload::Error(message) => PreviewPayload::Error(message.clone()),
        }
    }
}

impl PayloadView {
    /// The preview of `path` that the payload makes.
    pub open spec fn preview_of(self, path: Seq<u8>) -> PreviewView {
        match self {
            PayloadView::Text { content, truncated } => PreviewView::Text {
                path,
                content,
                truncated,
            },
            PayloadView::Binary => PreviewView::Binary { path },
            PayloadView::Error(message) => PreviewView::Error { path, message },
        }
    }
}

impl PreviewPayload {
    /// The preview of `path` that the payload makes.
    pub fn into_preview(self, path: FilePath) -> (r: FilePreview)
        ensures
            r@ == self@.preview_of(path@),
    {
        match self {
            PreviewPayload::Text { content, truncated } => FilePreview::Text {
                path,
                content,
                truncated,
            },
            PreviewPayload::Binary => FilePreview::Binary { path },
            PreviewPayload::Error(message) => FilePreview::Error { path, message },
        }
    }
}

/// The control characters: general category Cc.
pub open spec fn is_control(c: char) -> bool {
    c as u32 <= 0x1f || 0x7f <= c as u32 <= 0x9f
}

pub fn control(c: char) -> (r: bool)
    ensures
        r == is_control(c),
{
    let n: u32 = c as u32;
    n <= 0x1f || (0x7f <= n && n <= 0x9f)
}

/// The column that the cursor is in behind `s`.
pub open spec fn column(s: Seq<char>) -> nat
    decreases s.len(),
{
    if s.len() == 0 {
        0
    } else {
        let before = column(s.drop_last());
        if s.last() == '\n' {
            0
        } else if s.last() == '\t' {
            before + gap(before)
        } else {
            before + 1
        }
    }
}

/// The number of columns from `column` to the next tab stop.
pub open spec fn gap(column: nat) -> nat {
    (TAB_WIDTH - column % (TAB_WIDTH as nat)) as nat
}

/// `n` spaces.
pub open spec fn spaces(n: nat) -> Seq<char> {
    Seq::new(n, |i: int| ' ')
}

/// The text as it is painted: tabs reach to the next tab stop, other control characters become
/// spaces, and line feeds stay.
pub open spec fn sanitized(s: Seq<char>) -> Seq<char>
    decreases s.len(),
{
    if s.len() == 0 {
        Seq::empty()
    } else {
        let before = sanitized(s.drop_last());
        let c = s.last();
        if c == '\n' {
            before.push('\n')
        } else if c == '\t' {
            before + spaces(gap(column(s.drop_last())))
        } else if is_control(c) {
            before.push(' ')
        } else {
            before.push(c)
        }
    }
}

/// Makes file text safe to paint in a terminal. A raw tab would skip cells and
/// leave the characters of the previous file showing through.
pub fn sanitize_for_preview(text: &str) -> (r: String)
    ensures
        r@ == sanitized(text@),
{
    let chars = chars_of(text);
    let mut out: String = String::new();
    let mut at: usize = 0;
    let mut i: usize = 0;
    while i < chars.len()
        invariant
            i <= chars.len(),
            out@ == sanitized(chars@.take(i as int)),
            at < TAB_WIDTH,
            at == column(chars@.take(i as int)) % (TAB_WIDTH as nat),
        decreases chars.len() - i,
    {
        let c: char = chars[i];
        let ghost before = chars@.take(i as int);
        assert(chars@.take(i + 1).drop_last() == before);
        if c == '\n' {
            out.push('\n');
            at = 0;
        } else if c == '\t' {
            let width: usize = TAB_WIDTH - at;
            let mut n: usize = 0;
            assert(spaces(0) == Seq::<char>::empty());
            while n < width
                invariant
                    n <= width,
                    out@ == sanitized(before) + spaces(n as nat),
                decreases width - n,
            {
                out.push(' ');
                n += 1;
                assert(spaces(n as nat) == spaces((n - 1) as nat).push(' '));
            }
            at = 0;
        } else {
            if control(c) {
                out.push(' ');
            } else {
                out.push(c);
            }
            at = if at + 1 == TAB_WIDTH {
                0
            } else {
                at + 1
            };
        }
        i += 1;
    }
    assert(chars@.take(i as int) == text@);
    out
}

/// What a preview shows of the bytes that were read, one more than the limit at most.
pub open spec fn payload_of(read: Seq<u8>) -> PayloadView {
    let kept = if read.len() > PREVIEW_BYTE_LIMIT {
        read.take(PREVIEW_BYTE_LIMIT as int)
    } else {
        read
    };
    if kept.contains(0) {
        PayloadView::Binary
    } else {
        PayloadView::Text {
            content: sanitized(utf8_lossy(kept)),
            truncated: read.len() > PREVIEW_BYTE_LIMIT,
        }
    }
}

/// The preview of the bytes read from a file. A NUL byte marks a binary file.
pub fn payload_from_bytes(read: Vec<u8>) -> (r: PreviewPayload)
    ensures
        r@ == payload_of(read@),
{
    let mut kept = read;
    let truncated: bool = kept.len() > PREVIEW_BYTE_LIMIT;
    if truncated {
        kept.truncate(PREVIEW_BYTE_LIMIT);
        assert(kept@ == read@.take(PREVIEW_BYTE_LIMIT as int));
    }
    let mut i: usize = 0;
    while i < kept.len()
        invariant
            i <= kept.len(),
            kept@.contains(0) ==> payload_of(read@) is Binary,
            forall|j: int| 0 <= j < i ==> kept@[j] != 0,
        decreases kept.len() - i,
    {
        if kept[i] == 0 {
            assert(kept@.contains(0));
            return PreviewPayload::Binary;
        }
        i += 1;
    }
    let text = text_from_bytes(kept.as_slice());
    PreviewPayload::Text { content: sanitize_for_preview(text.as_str()), truncated }
}

/// The outcome of a preview read. A read that failed is reported with its reason; one that was
/// cancelled before it could be used has no outcome.
pub fn loaded(read: Result<Vec<u8>, String>, cancelled: bool) -> (r: Option<PreviewPayload>)
    ensures
        read matches Err(reason) ==> r matches Some(p) && p@ == PayloadView::Error(reason@),
        read matches Ok(bytes) ==> (r is None == cancelled) && (r matches Some(p) ==> p@
            == payload_of(bytes@)),
{
    match read {
        Err(reason) => Some(PreviewPayload::Error(reason)),
        Ok(bytes) => if cancelled {
            None
        } else {
            Some(payload_from_bytes(bytes))
        },
    }
}

/// How far the read of a preview has come.
#[derive(Debug, PartialEq, Eq)]
pub enum LoadEvent {
    /// The preview is wanted; nothing was read yet.
    Asked { cancelled: bool },
    /// The start of the file was read, or could not be.
    Read { read: Result<Vec<u8>, String>, cancelled: bool },
}

/// What the read of a preview does next.
#[derive(Debug, PartialEq, Eq)]
pub enum LoadAction {
    /// Read the start of the file.
    Read,
    /// The read is over, with its outcome unless it was cancelled.
    Done(Option<PreviewPayload>),
}

/// What a [`LoadAction`] asks for.
pub enum LoadActionView {
    Read,
    Done(Option<PayloadView>),
}

impl View for LoadAction {
    type V = LoadActionView;

    open spec fn view(&self) -> LoadActionView {
        match self {
            LoadAction::Read => LoadActionView::Read,
            LoadAction::Done(Some(payload)) => LoadActionView::Done(Some(payload@)),
            LoadAction::Done(None) => LoadActionView::Done(None),
        }
    }
}

/// What follows from an event. A read that was cancelled before it began has no outcome, whether
/// or not there is such a file; nor has one that was cancelled before its bytes could be used.
pub open spec fn load_decision(event: LoadEvent) -> LoadActionView {
    match event {
        LoadEvent::Asked { cancelled } => if cancelled {
            LoadActionView::Done(None)
        } else {
            LoadActionView::Read
        },
        LoadEvent::Read { read: Err(reason), .. } => LoadActionView::Done(
            Some(PayloadView::Error(reason@)),
        ),
        LoadEvent::Read { read: Ok(bytes), cancelled } => LoadActionView::Done(
            if cancelled {
                None
            } else {
                Some(payload_of(bytes@))
            },
        ),
    }
}

/// Takes one step of the read of a preview.
pub fn load_step(event: LoadEvent) -> (r: LoadAction)
    ensures
        r@ == load_decision(event),
{
    match event {
        LoadEvent::Asked { cancelled } => if cancelled {
            LoadAction::Done(None)
        } else {
            LoadAction::Read
        },
        LoadEvent::Read { read, cancelled } => LoadAction::Done(loaded(read, cancelled)),
    }
}

/// Painted text holds no control character but the line feed.
pub proof fn sanitized_text_is_paintable(s: Seq<char>)
    ensures
        forall|i: int|
            0 <= i < sanitized(s).len() ==> (#[trigger] sanitized(s)[i]) == '\n' || !is_control(
                sanitized(s)[i],
            ),
    decreases s.len(),
{
    if s.len() > 0 {
        sanitized_text_is_paintable(s.drop_last());
        let before = sanitized(s.drop_last());
        assert forall|i: int| 0 <= i < sanitized(s).len() implies (#[trigger] sanitized(s)[i])
            == '\n' || !is_control(sanitized(s)[i]) by {
            if i < before.len() {
                assert(sanitized(s)[i] == before[i]);
            }
        }
    }
}

proof fn lemma_paintable_text_is_kept(s: Seq<char>)
    requires
        forall|i: int| 0 <= i < s.len() ==> (#[trigger] s[i]) == '\n' || !is_control(s[i]),
    ensures
        sanitized(s) == s,
    decreases s.len(),
{
    if s.len() > 0 {
        assert forall|i: int| 0 <= i < s.drop_last().len() implies (#[trigger] s.drop_last()[i])
            == '\n' || !is_control(s.drop_last()[i]) by {
            assert(s.drop_last()[i] == s[i]);
        }
        lemma_paintable_text_is_kept(s.drop_last());
        assert(s.drop_last().push(s.last()) == s);
        assert(s.last() == s[s.len() - 1]);
    }
}

/// Sanitizing painted text changes nothing.
pub proof fn sanitizing_is_idempotent(s: Seq<char>)
    ensures
        sanitized(sanitized(s)) == sanitized(s),
{
    sanitized_text_is_paintable(s);
    lemma_paintable_text_is_kept(sanitized(s));
}

/// Every line feed is kept, and none is added.
pub proof fn sanitizing_keeps_line_feeds(s: Seq<char>)
    ensures
        sanitized(s).to_multiset().count('\n') == s.to_multiset().count('\n'),
    decreases s.len(),
{
    broadcast use vstd::seq_lib::group_to_multiset_ensures;

    if s.len() > 0 {
        sanitizing_keeps_line_feeds(s.drop_last());
        let before = sanitized(s.drop_last());
        let c = s.last();
        assert(s == s.drop_last().push(c));
        assert(s.to_multiset() == s.drop_last().to_multiset().insert(c));
        if c == '\t' {
            lemma_spaces_hold_no_line_feed(before, gap(column(s.drop_last())));
        }
    } else {
        assert(sanitized(s) == s);
    }
}

proof fn lemma_spaces_hold_no_line_feed(before: Seq<char>, n: nat)
    ensures
        (before + spaces(n)).to_multiset().count('\n') == before.to_multiset().count('\n'),
    decreases n,
{
    broadcast use vstd::seq_lib::group_to_multiset_ensures;

    if n == 0 {
        assert(before + spaces(n) == before);
    } else {
        let m = (n - 1) as nat;
        lemma_spaces_hold_no_line_feed(before, m);
        assert(before + spaces(n) == (before + spaces(m)).push(' '));
    }
}

} // verus!
