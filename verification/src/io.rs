//! Output: streams, the chunked write loop of `write_buf`, and the decisions
//! of `fputc`, `fputs`, `puts` and the formatter that writes to standard output.
//!
//! The `write` system call is made by the caller. `write_buf` is a state
//! machine: [`write_buf`] gives the first step, and the count that each
//! `write` returns is fed to [`WriteProgress::advance`] until the step is
//! [`WriteStep::Finished`]. The `fputc` family is split the same way: one
//! function says what to write, another turns what `write` returned into the
//! C result.
use vstd::prelude::*;
use crate::cstring::{is_c_string, c_len, strlen};

verus! {

/// The value returned on failure or end of file.
pub const EOF: i32 = -1;

/// File descriptor of standard input.
pub const STDIN_FILENO: i32 = 0;

/// File descriptor of standard output.
pub const STDOUT_FILENO: i32 = 1;

/// File descriptor of standard error.
pub const STDERR_FILENO: i32 = 2;

/// The largest count handed to one `write` call.
pub const BUFFER_SIZE: usize = 4096;

/// A stream: a file descriptor.
#[allow(non_camel_case_types)]
pub struct FILE {
    pub fd: i32,
}

/// How far a `write_buf` of `len` bytes has got.
#[derive(Clone, Copy, Debug, PartialEq, Eq)]
pub struct WriteProgress {
    /// Number of bytes to write in all.
    pub len: usize,
    /// Number of bytes written so far.
    pub written: usize,
    /// Count handed to the `write` call in flight.
    pub pending: usize,
}

/// What `write_buf` does next.
#[derive(Clone, Copy, Debug, PartialEq, Eq)]
pub enum WriteStep {
    /// Call `write` on the `count` bytes starting at `offset` of the buffer,
    /// then pass its return value to `advance`.
    Write { offset: usize, count: usize },
    /// The loop is over: `Ok` with the number of bytes written, or `Err`
    /// with the number written before `write` failed.
    Finished(Result<usize, usize>),
}

/// The count for the next `write`: what is left, at most [`BUFFER_SIZE`].
pub open spec fn chunk(len: usize, written: usize) -> usize {
    if len - written < BUFFER_SIZE {
        (len - written) as usize
    } else {
        BUFFER_SIZE
    }
}

/// The step taken with `written` of `len` bytes written.
pub open spec fn continue_model(len: usize, written: usize) -> (WriteProgress, WriteStep) {
    if written < len {
        (
            WriteProgress { len, written, pending: chunk(len, written) },
            WriteStep::Write { offset: written, count: chunk(len, written) },
        )
    } else {
        (WriteProgress { len, written, pending: 0 }, WriteStep::Finished(Ok(written)))
    }
}

/// The step after `write` returned `result`.
pub open spec fn advance_write_model(p: WriteProgress, result: isize) -> (WriteProgress, WriteStep) {
    if result < 0 {
        (WriteProgress { pending: 0, ..p }, WriteStep::Finished(Err(p.written)))
    } else if result == 0 {
        (WriteProgress { pending: 0, ..p }, WriteStep::Finished(Ok(p.written)))
    } else {
        continue_model(p.len, (p.written + result) as usize)
    }
}

impl WriteProgress {
    /// A `write` of `pending` bytes is in flight, within the buffer.
    pub open spec fn wf(self) -> bool {
        &&& self.written < self.len
        &&& self.pending == chunk(self.len, self.written)
    }

    /// Takes what `write` returned, which is at most the count asked for, and
    /// gives the next step.
    pub fn advance(self, result: isize) -> (r: (WriteProgress, WriteStep))
        requires
            self.wf(),
            result <= self.pending,
        ensures
            r == advance_write_model(self, result),
            r.1 is Write ==> r.0.wf(),
    {
        if result < 0 {
            return (WriteProgress { pending: 0, ..self }, WriteStep::Finished(Err(self.written)));
        }
        if result == 0 {
            return (WriteProgress { pending: 0, ..self }, WriteStep::Finished(Ok(self.written)));
        }
        let count = result as usize;
        continue_from(self.len, self.written + count)
    }
}

/// The next step with `written` of `len` bytes written.
fn continue_from(len: usize, written: usize) -> (r: (WriteProgress, WriteStep))
    requires
        written <= len,
    ensures
        r == continue_model(len, written),
        r.1 is Write ==> r.0.wf(),
{
    if written < len {
        let remaining = len - written;
        let to_write = if remaining < BUFFER_SIZE {
            remaining
        } else {
            BUFFER_SIZE
        };
        (
            WriteProgress { len, written, pending: to_write },
            WriteStep::Write { offset: written, count: to_write },
        )
    } else {
        (WriteProgress { len, written, pending: 0 }, WriteStep::Finished(Ok(written)))
    }
}

/// `write_buf` of a buffer of `len` bytes: writes it in chunks of at most
/// [`BUFFER_SIZE`] bytes, each starting where the last one ended, until all
/// is written, a `write` returns 0 (the count so far is returned) or a
/// `write` fails (`Err` with the count so far).
pub fn write_buf(len: usize) -> (r: (WriteProgress, WriteStep))
    ensures
        r == continue_model(len, 0),
        r.1 is Write ==> r.0.wf(),
{
    continue_from(len, 0)
}

/// The step reached when every `write` from `p` on writes all it is given,
/// after at most `fuel` more answers.
pub open spec fn run_full(p: WriteProgress, step: WriteStep, fuel: nat) -> WriteStep
    decreases fuel,
{
    if fuel == 0 {
        step
    } else {
        match step {
            WriteStep::Write { offset, count } => {
                let next = advance_write_model(p, count as isize);
                run_full(next.0, next.1, (fuel - 1) as nat)
            },
            WriteStep::Finished(_) => step,
        }
    }
}

/// Each `write` asked for covers between 1 and [`BUFFER_SIZE`] bytes,
/// starts where the bytes written so far end and stays within the buffer;
/// whatever happens, the count given back never exceeds the buffer.
pub proof fn lemma_write_steps_in_buffer(p: WriteProgress, result: isize)
    requires
        p.wf(),
        result <= p.pending,
    ensures
        ({
            let (q, step) = advance_write_model(p, result);
            &&& step matches WriteStep::Write { offset, count } ==> {
                &&& offset == p.written + result
                &&& 1 <= count <= BUFFER_SIZE
                &&& offset + count <= p.len
                &&& q.wf()
            }
            &&& step matches WriteStep::Finished(Ok(n)) ==> n <= p.len
            &&& step matches WriteStep::Finished(Err(n)) ==> n == p.written
        }),
{
}

/// `write_buf` asks `write` for what is left, at most 4096 bytes, starting
/// where the bytes written so far end; a negative answer ends it with `Err`
/// of the count so far, an answer of 0 with `Ok` of the count so far, and it
/// ends with `Ok(len)` once everything is written.
pub proof fn lemma_write_loop_steps(len: usize, written: usize, result: isize)
    requires
        written <= len,
    ensures
        written < len ==> continue_model(len, written).1 == (WriteStep::Write {
            offset: written,
            count: if len - written < 4096 { (len - written) as usize } else { 4096 },
        }),
        written == len ==> continue_model(len, written).1 == WriteStep::Finished(Ok(len)),
        written < len && result < 0 ==> advance_write_model(
            continue_model(len, written).0,
            result,
        ).1 == WriteStep::Finished(Err(written)),
        written < len && result == 0 ==> advance_write_model(
            continue_model(len, written).0,
            result,
        ).1 == WriteStep::Finished(Ok(written)),
        written < len && 0 < result && written + result <= len ==> advance_write_model(
            continue_model(len, written).0,
            result,
        ) == continue_model(len, (written + result) as usize),
{
}

/// When every `write` writes all it is given, `write_buf` of `len` bytes
/// ends with `Ok(len)`.
pub proof fn lemma_full_writes_write_everything(len: usize)
    ensures
        run_full(continue_model(len, 0).0, continue_model(len, 0).1, len as nat)
            == WriteStep::Finished(Ok(len)),
{
    lemma_run_full_from(len, 0, len as nat);
}

/// From `written` bytes on, enough full writes reach `Ok(len)`.
proof fn lemma_run_full_from(len: usize, written: usize, fuel: nat)
    requires
        written <= len,
        fuel >= len - written,
    ensures
        run_full(continue_model(len, written).0, continue_model(len, written).1, fuel)
            == WriteStep::Finished(Ok(len)),
    decreases len - written,
{
    if written < len {
        let c = chunk(len, written);
        lemma_run_full_from(len, (written + c) as usize, (fuel - 1) as nat);
    }
}

/// What `fputc` does first.
#[derive(Clone, Copy, Debug, PartialEq, Eq)]
pub enum FputcStep {
    /// Write `byte` to descriptor `fd` and pass what `write` returned to [`fputc_result`].
    Write { fd: i32, byte: u8 },
    /// Return this result without writing.
    Finish(i32),
}

/// `fputc(c, stream)`: for a null stream, [`EOF`] at once; else write the
/// low byte of `c` to the stream's descriptor.
pub fn fputc(c: i32, stream: Option<&FILE>) -> (r: FputcStep)
    ensures
        stream is None ==> r == FputcStep::Finish(EOF),
        stream matches Some(f) ==> r == (FputcStep::Write {
            fd: f.fd,
            byte: #[verifier::truncate] (c as u8),
        }),
{
    match stream {
        None => FputcStep::Finish(EOF),
        Some(f) => FputcStep::Write { fd: f.fd, byte: #[verifier::truncate] (c as u8) },
    }
}

/// The result of `fputc(c, ..)` once `write` of its byte returned `written`:
/// the byte written, as an `unsigned char`, when it was written, else [`EOF`].
pub fn fputc_result(c: i32, written: isize) -> (r: i32)
    ensures
        r == if written == 1 { (#[verifier::truncate] (c as u8)) as i32 } else { EOF },
        written == 1 ==> 0 <= r <= 255 && r != EOF,
{
    if written == 1 {
        (#[verifier::truncate] (c as u8)) as i32
    } else {
        EOF
    }
}

/// What `fputs` does first.
#[derive(Clone, Copy, Debug, PartialEq, Eq)]
pub enum FputsStep {
    /// Write the first `len` bytes of the string to descriptor `fd` and pass
    /// what `write` returned to [`fputs_result`].
    Write { fd: i32, len: usize },
    /// Return this result without writing.
    Finish(i32),
}

/// `fputs(s, stream)`: when `s` or the stream is null, [`EOF`] at once,
/// without reading `s`; else write the bytes of the C string `s` before its
/// NUL to the stream's descriptor.
pub fn fputs(s: Option<&[i8]>, stream: Option<&FILE>) -> (r: FputsStep)
    requires
        s matches Some(s) ==> stream is Some ==> is_c_string(s@),
    ensures
        (s is None || stream is None) ==> r == FputsStep::Finish(EOF),
        s matches Some(s) ==> stream matches Some(f) ==> r == (FputsStep::Write {
            fd: f.fd,
            len: c_len(s@) as usize,
        }),
{
    match (s, stream) {
        (Some(s), Some(f)) => FputsStep::Write { fd: f.fd, len: strlen(s) },
        _ => FputsStep::Finish(EOF),
    }
}

/// The result of `fputs` once `write` of its `len` bytes returned `written`:
/// 0 when that count, taken as unsigned, is `len`, else [`EOF`].
pub fn fputs_result(len: usize, written: isize) -> (r: i32)
    ensures
        r == if written as usize == len { 0 } else { EOF },
{
    if written as usize == len {
        0
    } else {
        EOF
    }
}

/// What `puts` does after writing its text with `fputs`.
#[derive(Clone, Copy, Debug, PartialEq, Eq)]
pub enum PutsStep {
    /// Write a newline with `fputc` and pass its result to [`puts_result`].
    WriteNewline,
    /// Return this result.
    Finish(i32),
}

/// `puts`, after `fputs` of the text returned `text_result`: stop with
/// [`EOF`] if that failed, else write the newline.
pub fn puts(text_result: i32) -> (r: PutsStep)
    ensures
        r == if text_result == EOF { PutsStep::Finish(EOF) } else { PutsStep::WriteNewline },
{
    if text_result != EOF {
        PutsStep::WriteNewline
    } else {
        PutsStep::Finish(EOF)
    }
}

/// The result of `puts` once `fputc` of the newline returned `newline_result`:
/// the text's result when the newline was written, else [`EOF`].
pub fn puts_result(text_result: i32, newline_result: i32) -> (r: i32)
    ensures
        r == if newline_result == 10 { text_result } else { EOF },
{
    if newline_result == '\n' as i32 {
        text_result
    } else {
        EOF
    }
}

/// A formatter that writes to standard output.
pub struct StdoutFmt;

/// What writing a string to standard output does first.
#[derive(Clone, Copy, Debug, PartialEq, Eq)]
pub enum FmtStep {
    /// Write all bytes of the string with `write_buf`.
    WriteAll,
    /// Return this outcome without writing.
    Finish(Result<(), ()>),
}

impl StdoutFmt {
    /// `write_str(s)`: an empty string is written at once, with `Ok`;
    /// any other calls `write_buf` on standard output with the bytes of `s`,
    /// and its result goes to [`StdoutFmt::write_outcome`].
    pub fn write_str(&self, s: &str) -> (r: FmtStep)
        ensures
            s@.len() == 0 ==> r == FmtStep::Finish(Ok(())),
            s@.len() != 0 ==> r == FmtStep::WriteAll,
    {
        if s.is_empty() {
            FmtStep::Finish(Ok(()))
        } else {
            FmtStep::WriteAll
        }
    }

    /// The outcome of writing a string of `len` bytes, once `write_buf`
    /// returned `result`, which when `Ok` holds `len` (a shorter count is a
    /// broken promise that the caller must treat as fatal): `Ok` when
    /// `write_buf` succeeded, `Err` when it failed.
    pub fn write_outcome(&self, len: usize, result: Result<usize, usize>) -> (r: Result<(), ()>)
        requires
            result matches Ok(n) ==> n == len,
        ensures
            r is Ok <==> result is Ok,
    {
        match result {
            Ok(_) => Ok(()),
            Err(_) => Err(()),
        }
    }
}

} // verus!
