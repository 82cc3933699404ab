//! The clipboard: what is written to it, what is read from it, and the calls that do
//! so.
use crate::dib::dib_to_png;
use crate::dib;
use crate::text::from_utf8;
use crate::text::to_chars;
use crate::utf16::wide_null;
use crate::utf16;
use vstd::prelude::*;
use vstd::string::*;
use vstd::utf8::*;

verus! {

/// Text as the clipboard takes it.
#[derive(Debug, Clone, PartialEq, Eq)]
pub struct ClipboardText {
    /// Its units, with a NUL behind them.
    pub units: Vec<u16>,
    /// The number of bytes that they take.
    pub byte_len: usize,
}

/// Whether a text holds a NUL.
pub open spec fn holds_nul(chars: Seq<char>) -> bool {
    exists|i: int| 0 <= i < chars.len() && chars[i] == '\0'
}

/// Whether bytes can be written to the clipboard: they are text without a NUL, and
/// there is memory of the size that it takes.
pub open spec fn writable(bytes: Seq<u8>) -> bool {
    &&& valid_utf8(bytes)
    &&& !holds_nul(decode_utf8(bytes))
    &&& (utf16::units_of(decode_utf8(bytes)).len() + 1) * 2 <= usize::MAX
}

fn has_nul(text: &str) -> (res: bool)
    ensures
        res == holds_nul(text@),
{
    let chars = to_chars(text);
    let mut i: usize = 0;
    while i < chars.len()
        invariant
            i <= chars@.len(),
            chars@ == text@,
            forall|j: int| 0 <= j < i ==> chars@[j] != '\0',
        decreases chars@.len() - i,
    {
        if chars[i] == '\0' {
            assert(text@[i as int] == '\0');
            return true;
        }
        i = i + 1;
    }
    false
}

/// The text that is written to the clipboard for `bytes`.
pub fn write_clipboard(bytes: &[u8]) -> (res: Option<ClipboardText>)
    ensures
        res is Some <==> writable(bytes@),
        res matches Some(text) ==> text.units@ == utf16::units_of(decode_utf8(bytes@)).push(0)
            && text.byte_len == text.units@.len() * 2,
{
    let text = match from_utf8(bytes) {
        Ok(text) => text,
        Err(_) => return None,
    };
    if has_nul(text.as_str()) {
        return None;
    }
    let units = wide_null(text.as_str());
    match units.len().checked_mul(2) {
        Some(byte_len) => Some(ClipboardText { units, byte_len }),
        None => None,
    }
}

/// What is written to the clipboard for a text without a NUL is that text, and the NUL
/// behind it ends it.
pub proof fn law_clipboard_text_reads_back(chars: Seq<char>)
    requires
        !holds_nul(chars),
        (utf16::units_of(chars).len() + 1) * 2 <= usize::MAX,
    ensures
        writable(encode_utf8(chars)),
        utf16::lossy_text(
            utf16::up_to_nul(utf16::units_of(decode_utf8(encode_utf8(chars))).push(0)),
        ) == chars,
{
    encode_utf8_valid_utf8(chars);
    encode_utf8_decode_utf8(chars);
    let units = utf16::units_of(chars).push(0);
    assert(units + Seq::<u16>::empty() =~= units);
    utf16::law_nul_terminated_reads_back(chars, Seq::empty());
}

/// The calls that write to the clipboard, in order.
#[derive(Debug, Clone, Copy, PartialEq, Eq, Structural)]
pub enum WriteCall {
    /// Finds the console window, which will own the contents.
    Owner,
    /// Opens the clipboard.
    Open,
    /// Empties it.
    Empty,
    /// Allocates memory.
    Allocate,
    /// Locks the memory, into which the text is then copied.
    Lock,
    /// Hands the memory over to the clipboard.
    Publish,
}

/// What follows a call.
#[derive(Debug, Clone, Copy, PartialEq, Eq, Structural)]
pub enum WriteStep {
    /// The next call.
    Call(WriteCall),
    /// The end: whether the text was written, and whether the memory is freed and the
    /// clipboard closed.
    End { written: bool, free: bool, close: bool },
}

/// What follows a call that succeeded or did not. What was allocated and not handed
/// over is freed, and what was opened is closed.
pub fn after_write_call(call: WriteCall, succeeded: bool) -> (res: WriteStep)
    ensures
        succeeded ==> res == (match call {
            WriteCall::Owner => WriteStep::Call(WriteCall::Open),
            WriteCall::Open => WriteStep::Call(WriteCall::Empty),
            WriteCall::Empty => WriteStep::Call(WriteCall::Allocate),
            WriteCall::Allocate => WriteStep::Call(WriteCall::Lock),
            WriteCall::Lock => WriteStep::Call(WriteCall::Publish),
            WriteCall::Publish => WriteStep::End { written: true, free: false, close: true },
        }),
        !succeeded ==> res == (WriteStep::End {
            written: false,
            free: call is Lock || call is Publish,
            close: !(call is Owner || call is Open),
        }),
{
    if succeeded {
        match call {
            WriteCall::Owner => WriteStep::Call(WriteCall::Open),
            WriteCall::Open => WriteStep::Call(WriteCall::Empty),
            WriteCall::Empty => WriteStep::Call(WriteCall::Allocate),
            WriteCall::Allocate => WriteStep::Call(WriteCall::Lock),
            WriteCall::Lock => WriteStep::Call(WriteCall::Publish),
            WriteCall::Publish => WriteStep::End { written: true, free: false, close: true },
        }
    } else {
        let free = match call {
            WriteCall::Lock => true,
            WriteCall::Publish => true,
            _ => false,
        };
        let close = match call {
            WriteCall::Owner => false,
            WriteCall::Open => false,
            _ => true,
        };
        WriteStep::End { written: false, free, close }
    }
}

/// The text on the clipboard is not read on Windows.
pub fn read_clipboard_text() -> (res: Option<String>)
    ensures
        res is None,
{
    None
}

/// The format of bitmaps with a long header.
pub const CF_DIBV5: u16 = 17;

/// The format of bitmaps with a short header.
pub const CF_DIB: u16 = 8;

/// The format in which an image is read, where there is one: the longer header before
/// the shorter.
pub fn image_format(has_dibv5: bool, has_dib: bool) -> (res: Option<u16>)
    ensures
        res == (if has_dibv5 {
            Some(CF_DIBV5)
        } else if has_dib {
            Some(CF_DIB)
        } else {
            None
        }),
        has_dibv5 ==> res == Some(17u16),
        !has_dibv5 && has_dib ==> res == Some(8u16),
{
    if has_dibv5 {
        Some(CF_DIBV5)
    } else if has_dib {
        Some(CF_DIB)
    } else {
        None
    }
}

/// An image from the clipboard.
#[derive(Debug, Clone, PartialEq, Eq)]
pub struct ClipboardImage {
    pub bytes: Vec<u8>,
    pub extension: &'static str,
}

/// The image of these PNG bytes, where they are not more than may be sent.
pub open spec fn sendable_image(png: Seq<u8>, max_payload: usize) -> Option<Seq<u8>> {
    if png.len() > max_payload {
        None
    } else {
        Some(png)
    }
}

/// The image of these PNG bytes, where they are not more than may be sent.
pub fn png_image(png: Vec<u8>, max_payload: usize) -> (res: Option<ClipboardImage>)
    ensures
        match sendable_image(png@, max_payload) {
            Some(bytes) => res is Some && res->Some_0.bytes@ == bytes && res->Some_0.extension@
                == "png"@,
            None => res is None,
        },
{
    if png.len() > max_payload {
        return None;
    }
    Some(ClipboardImage { bytes: png, extension: "png" })
}

/// The image that the bitmap `dib` from the clipboard shows, where it is one that is
/// read and its file is not larger than may be sent.
pub fn read_clipboard_image(dib: &[u8], max_payload: usize) -> (res: Option<ClipboardImage>)
    ensures
        match dib::layout_of(dib@) {
            Some(layout) => match sendable_image(
                dib::png_rgba8(layout.width, layout.height, dib::dib_rgba(dib@, layout)),
                max_payload,
            ) {
                Some(bytes) => res is Some && res->Some_0.bytes@ == bytes
                    && res->Some_0.extension@ == "png"@,
                None => res is None,
            },
            None => res is None,
        },
{
    match dib_to_png(dib) {
        Some(png) => png_image(png, max_payload),
        None => None,
    }
}

/// Bytes are written to the clipboard exactly where they are the text of characters none of
/// which is NUL, and memory suffices for it.
pub proof fn law_writable_bytes(bytes: Seq<u8>)
    ensures
        writable(bytes) <==> valid_utf8(bytes) && (forall|i: int|
            0 <= i < decode_utf8(bytes).len() ==> (#[trigger] decode_utf8(bytes)[i]) as u32 != 0)
            && 2 * utf16::units_of(decode_utf8(bytes)).len() + 2 <= usize::MAX,
{
    let chars = decode_utf8(bytes);
    if holds_nul(chars) {
        let i = choose|i: int| 0 <= i < chars.len() && chars[i] == '\0';
        assert(chars[i] as u32 == 0);
    } else {
        assert forall|i: int| 0 <= i < chars.len() implies (#[trigger] chars[i]) as u32 != 0 by {
            if chars[i] as u32 == 0 {
                crate::text::lemma_same_code(chars[i], '\0');
            }
        }
    }
}

/// An image is sent as it is where its file is not larger than may be sent, and not at all
/// where it is.
pub proof fn law_image_is_sent_whole(png: Seq<u8>, max_payload: usize)
    ensures
        png.len() <= max_payload ==> sendable_image(png, max_payload) == Some(png),
        png.len() > max_payload ==> sendable_image(png, max_payload) is None,
{
}

} // verus!
