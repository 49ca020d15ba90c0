//! Console calls of the application: reading a C string out of a window of
//! application memory and turning it into the text that goes to the console.
//!
//! Nothing here touches the console. Each call hands back the text to write
//! and the status to return; writing the text in one piece is the caller's
//! part, which keeps the output of parallel tasks from mixing.

use vstd::prelude::*;
use vstd::slice::slice_subrange;
use vstd::string::{StringExecFns, StringSliceAdditionalSpecFns};
use vstd::utf8::{decode_utf8, encode_utf8, encode_utf8_decode_utf8, valid_utf8};

verus! {

/// Why no text could be read from application memory.
#[derive(Clone, Copy, Debug, PartialEq, Eq)]
pub enum TextError {
    /// The application passed a null pointer.
    NullPointer,
    /// The memory that the pointer leads into ends before a terminating NUL.
    Unterminated,
}

/// The status that every failed console call hands to the application.
pub const FAILURE: i32 = -1;

impl TextError {
    /// The status that the application gets where no text could be read: the
    /// failure status, whatever the reason.
    pub fn status(self) -> (status: i32)
        ensures
            status == FAILURE,
    {
        FAILURE
    }
}

/// What a console call leaves for its caller to do: write `text` to the
/// console in one piece, then hand `status` to the application.
/// `invalid_text` tells that the application's bytes were no UTF-8 and were
/// written byte by byte; that is worth a note in the log and no failure.
#[derive(Debug, PartialEq, Eq)]
pub struct ConsoleOutput {
    pub text: String,
    pub status: i32,
    pub invalid_text: bool,
}

/// True when the window holds a NUL, so that a C string ends inside it.
pub open spec fn terminated(mem: Seq<u8>) -> bool {
    exists|i: int| 0 <= i < mem.len() && mem[i] == 0
}

/// The bytes of the C string at the start of `mem`: all that precede the first
/// NUL, or all of `mem` if it holds none.
pub open spec fn c_str(mem: Seq<u8>) -> Seq<u8>
    decreases mem.len(),
{
    if mem.len() == 0 || mem.first() == 0 {
        Seq::empty()
    } else {
        seq![mem.first()] + c_str(mem.drop_first())
    }
}

/// One character for each byte, the character whose code point is the byte.
pub open spec fn bytewise(bytes: Seq<u8>) -> Seq<char> {
    Seq::new(bytes.len(), |i: int| bytes[i] as char)
}

/// The text that stands for `bytes` on the console: the decoded text where
/// the bytes are UTF-8, and one character per byte where they are not.
pub open spec fn console_text(bytes: Seq<u8>) -> Seq<char> {
    if valid_utf8(bytes) {
        decode_utf8(bytes)
    } else {
        bytewise(bytes)
    }
}

/// The status of a call that produced `len` bytes, as a C `int`: the count
/// itself as long as an `int` holds it, and its low 32 bits beyond that.
pub open spec fn count_status(len: int) -> i32 {
    len as i32
}

/// The number of bytes that `text` takes on the console, which is its length
/// in UTF-8.
pub open spec fn byte_len(text: Seq<char>) -> usize {
    encode_utf8(text).len() as usize
}

/// Where the first `n` bytes hold no NUL and a NUL or the end follows, the C
/// string is those `n` bytes.
pub proof fn lemma_c_str_is_prefix(mem: Seq<u8>, n: int)
    requires
        0 <= n <= mem.len(),
        forall|j: int| 0 <= j < n ==> mem[j] != 0,
        n == mem.len() || mem[n] == 0,
    ensures
        c_str(mem) == mem.subrange(0, n),
    decreases n,
{
    if n == 0 {
        assert(mem.subrange(0, 0) =~= Seq::<u8>::empty());
    } else {
        let rest = mem.drop_first();
        assert(mem[0] != 0);
        assert forall|j: int| 0 <= j < n - 1 implies rest[j] != 0 by {
            assert(rest[j] == mem[j + 1]);
        }
        lemma_c_str_is_prefix(rest, n - 1);
        assert(seq![mem.first()] + rest.subrange(0, n - 1) =~= mem.subrange(0, n));
    }
}

/// `core::str::from_utf8`: the bytes as a string slice where they are valid
/// UTF-8, nothing where they are not. The slice that comes back holds exactly
/// the bytes that went in.
#[verifier::external_body]
fn str_from_utf8<'a>(bytes: &'a [u8]) -> (text: Option<&'a str>)
    ensures
        text is Some <==> valid_utf8(bytes@),
        text is Some ==> text.unwrap().spec_bytes() == bytes@,
{
    core::str::from_utf8(bytes).ok()
}

/// `String::push`: appends one character to the end of the string.
#[verifier::external_body]
fn push_char(text: &mut String, c: char)
    ensures
        final(text)@ == old(text)@.push(c),
{
    text.push(c)
}

/// How much may be read through a pointer of the application: the bytes from
/// `addr` to the end of the application's memory, which lies from `start` up
/// to, not including, `end`. A null pointer gives nothing; a pointer that
/// leads elsewhere gives an empty window.
pub open spec fn window_of(addr: usize, start: usize, end: usize) -> Option<usize> {
    if addr == 0 {
        None
    } else if start <= addr < end {
        Some((end - addr) as usize)
    } else {
        Some(0)
    }
}

/// Computes [`window_of`].
pub fn window_len(addr: usize, start: usize, end: usize) -> (len: Option<usize>)
    ensures
        len == window_of(addr, start, end),
{
    if addr == 0 {
        None
    } else if start <= addr && addr < end {
        Some(end - addr)
    } else {
        Some(0)
    }
}

/// Reads the C string that a pointer of the application leads to.
///
/// `mem` is `None` for a null pointer and otherwise the application memory
/// from the pointer to the end of what may be read. The string is what
/// precedes the first NUL; a window without NUL holds no string. With its
/// terminator a string that was read fits the address space.
pub fn c_string<'a>(mem: Option<&'a [u8]>) -> (r: Result<&'a [u8], TextError>)
    ensures
        match r {
            Ok(bytes) => mem is Some && terminated(mem.unwrap()@) && bytes@ == c_str(
                mem.unwrap()@,
            ) && bytes@.len() < usize::MAX,
            Err(TextError::NullPointer) => mem is None,
            Err(TextError::Unterminated) => mem is Some && !terminated(mem.unwrap()@),
        },
{
    let window = match mem {
        Some(window) => window,
        None => {
            return Err(TextError::NullPointer);
        },
    };
    let mut i: usize = 0;
    while i < window.len()
        invariant
            mem == Some(window),
            i <= window.len(),
            forall|j: int| 0 <= j < i ==> window@[j] != 0,
        decreases window.len() - i,
    {
        if window[i] == 0 {
            proof {
                assert(window@[i as int] == 0);
                lemma_c_str_is_prefix(window@, i as int);
            }
            return Ok(slice_subrange(window, 0, i));
        }
        i += 1;
    }
    Err(TextError::Unterminated)
}

/// Turns the bytes of a string into console text: decoded where they are
/// UTF-8, and one character per byte where they are not, so that no byte is
/// dropped. The flag tells that the bytes were not UTF-8.
pub fn render(bytes: &[u8]) -> (r: (String, bool))
    ensures
        r.0@ == console_text(bytes@),
        r.1 == !valid_utf8(bytes@),
{
    match str_from_utf8(bytes) {
        Some(decoded) => {
            proof {
                encode_utf8_decode_utf8(decoded@);
            }
            (String::from_str(decoded), false)
        },
        None => {
            let mut text = String::new();
            let mut i: usize = 0;
            while i < bytes.len()
                invariant
                    i <= bytes.len(),
                    text@ == bytewise(bytes@.subrange(0, i as int)),
                decreases bytes.len() - i,
            {
                let c = bytes[i] as char;
                push_char(&mut text, c);
                proof {
                    assert(text@ =~= bytewise(bytes@.subrange(0, i + 1)));
                }
                i += 1;
            }
            proof {
                assert(bytes@.subrange(0, bytes.len() as int) =~= bytes@);
            }
            (text, true)
        },
    }
}

/// The text and status of `puts` for the memory that its argument leads to.
pub open spec fn puts_text(mem: Option<Seq<u8>>) -> Seq<char> {
    if mem is Some && terminated(mem.unwrap()) {
        console_text(c_str(mem.unwrap())).push('\n')
    } else {
        Seq::empty()
    }
}

/// The status of `puts`: the length of the string in bytes and one more for
/// the line break, or the failure status where there is no string.
pub open spec fn puts_status(mem: Option<Seq<u8>>) -> i32 {
    if mem is Some && terminated(mem.unwrap()) {
        count_status(c_str(mem.unwrap()).len() as int + 1)
    } else {
        FAILURE
    }
}

/// `puts`: the string followed by a line break, and its length plus one.
///
/// A null pointer and a string that does not end inside the window write
/// nothing and give the failure status.
pub fn puts(s: Option<&[u8]>) -> (out: ConsoleOutput)
    ensures
        out.text@ == puts_text(
            match s {
                Some(m) => Some(m@),
                None => None,
            },
        ),
        out.status == puts_status(
            match s {
                Some(m) => Some(m@),
                None => None,
            },
        ),
        out.invalid_text == match s {
            Some(m) => terminated(m@) && !valid_utf8(c_str(m@)),
            None => false,
        },
{
    match c_string(s) {
        Ok(bytes) => {
            let (mut text, invalid_text) = render(bytes);
            push_char(&mut text, '\n');
            let count: usize = bytes.len() + 1;
            ConsoleOutput { text, status: #[verifier::truncate] (count as i32), invalid_text }
        },
        Err(_) => ConsoleOutput { text: String::new(), status: FAILURE, invalid_text: false },
    }
}

/// `putchar`: the one character, as text for the console.
pub fn putchar(c: char) -> (text: String)
    ensures
        text@ == seq![c],
{
    let mut text = String::new();
    push_char(&mut text, c);
    proof {
        assert(text@ =~= seq![c]);
    }
    text
}

/// First half of `printf`: the format string that the format renderer is to
/// expand. Where this fails `printf` returns the failure status without
/// looking at its other arguments.
pub fn printf_format<'a>(format: Option<&'a [u8]>) -> (r: Result<&'a [u8], TextError>)
    ensures
        match r {
            Ok(bytes) => format is Some && terminated(format.unwrap()@) && bytes@ == c_str(
                format.unwrap()@,
            ) && bytes@.len() < usize::MAX,
            Err(TextError::NullPointer) => format is None,
            Err(TextError::Unterminated) => format is Some && !terminated(format.unwrap()@),
        },
{
    c_string(format)
}

/// Second half of `printf`: what goes to the console once the renderer is
/// done. `rendered` is the expanded text, or nothing where the renderer gave
/// up on the format. The status is the number of bytes that the text takes on
/// the console.
pub fn printf_output(rendered: Option<String>) -> (out: ConsoleOutput)
    ensures
        match rendered {
            Some(text) => out.text@ == text@ && out.status == count_status(
                byte_len(text@) as int,
            ),
            None => out.text@ == Seq::<char>::empty() && out.status == FAILURE,
        },
        !out.invalid_text,
{
    match rendered {
        Some(text) => {
            let len = text.as_str().len();
            ConsoleOutput { text, status: #[verifier::truncate] (len as i32), invalid_text: false }
        },
        None => ConsoleOutput { text: String::new(), status: FAILURE, invalid_text: false },
    }
}

} // verus!
