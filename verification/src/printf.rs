//! `printf` formatting into its fixed buffer.
//!
//! The format is read byte by byte. `%s` inserts the bytes of a string, `%d`
//! and `%i` an integer in decimal (with a leading `-` when negative), `%%` a
//! percent sign; any other byte after `%` is kept as is, with its `%`, and a
//! `%` that ends the format is kept too. Every other byte, of the format or
//! of a string argument, is copied unchanged. Output stops silently when the
//! buffer of [`PRINTF_BUFFER_SIZE`] bytes is full; arguments are taken
//! whether or not there is room.
use vstd::prelude::*;
use crate::io::EOF;

verus! {

/// Capacity of the buffer that `printf` fills.
pub const PRINTF_BUFFER_SIZE: usize = 128;

/// An argument of `printf`.
#[derive(Clone, Copy, Debug, PartialEq, Eq)]
pub enum PrintfArg<'a> {
    /// For `%s`: the bytes of the string, up to its NUL.
    Str(&'a [u8]),
    /// For `%d` and `%i`.
    Int(i32),
}

/// The byte `%`.
pub const PERCENT: u8 = 37;

/// The byte `-`.
pub const MINUS: u8 = 45;

/// The ASCII digit of `d`.
pub open spec fn digit_byte(d: int) -> u8 {
    (48 + d) as u8
}

/// Decimal digits of `n`, most significant first, without leading zeros
/// (`0` for zero).
pub open spec fn decimal(n: nat) -> Seq<u8>
    decreases n,
{
    if n < 10 {
        seq![digit_byte(n as int)]
    } else {
        decimal(n / 10) + seq![digit_byte((n % 10) as int)]
    }
}

/// The value of a string of decimal digits.
pub open spec fn digits_value(s: Seq<u8>) -> int
    decreases s.len(),
{
    if s.len() == 0 {
        0
    } else {
        digits_value(s.drop_last()) * 10 + (s.last() - 48)
    }
}

/// The text of an integer: `-` before the digits of its magnitude when negative.
pub open spec fn int_text(n: i32) -> Seq<u8> {
    if n < 0 {
        seq![MINUS] + decimal((-n) as nat)
    } else {
        decimal(n as nat)
    }
}

/// Everything that `format` with `args` produces, before the buffer limit;
/// `None` when a conversion lacks an argument or gets one of the wrong kind.
pub open spec fn render(format: Seq<u8>, args: Seq<PrintfArg>) -> Option<Seq<u8>>
    decreases format.len(),
{
    if format.len() == 0 {
        Some(Seq::empty())
    } else if format[0] != PERCENT {
        match render(format.drop_first(), args) {
            Some(rest) => Some(seq![format[0]] + rest),
            None => None,
        }
    } else if format.len() == 1 {
        Some(seq![PERCENT])
    } else {
        let spec = format[1];
        let rest = format.skip(2);
        if spec == 115u8 || spec == 100u8 || spec == 105u8 {
            if args.len() == 0 {
                None
            } else {
                let piece: Option<Seq<u8>> = match args[0] {
                    PrintfArg::Str(s) => if spec == 115u8 {
                        Some(s@)
                    } else {
                        None
                    },
                    PrintfArg::Int(n) => if spec != 115u8 {
                        Some(int_text(n))
                    } else {
                        None
                    },
                };
                match (piece, render(rest, args.drop_first())) {
                    (Some(p), Some(r)) => Some(p + r),
                    _ => None,
                }
            }
        } else if spec == PERCENT {
            match render(rest, args) {
                Some(r) => Some(seq![PERCENT] + r),
                None => None,
            }
        } else {
            match render(rest, args) {
                Some(r) => Some(seq![PERCENT, spec] + r),
                None => None,
            }
        }
    }
}

/// What fits in the buffer of `s`: its first [`PRINTF_BUFFER_SIZE`] bytes.
pub open spec fn clip(s: Seq<u8>) -> Seq<u8> {
    if s.len() <= PRINTF_BUFFER_SIZE {
        s
    } else {
        s.take(PRINTF_BUFFER_SIZE as int)
    }
}

/// What fits in the buffer is at most [`PRINTF_BUFFER_SIZE`] bytes and is
/// the beginning of the full rendering; a rendering that fits is kept whole.
pub proof fn lemma_clip_is_prefix(s: Seq<u8>)
    ensures
        clip(s).len() <= PRINTF_BUFFER_SIZE,
        clip(s).is_prefix_of(s),
        s.len() <= PRINTF_BUFFER_SIZE ==> clip(s) == s,
{
}

/// The decimal digits of `n` are ASCII digits, the first is not `0` unless
/// `n` is zero, and their value is `n`.
pub proof fn lemma_decimal_round_trip(n: nat)
    ensures
        decimal(n).len() >= 1,
        forall|k: int| 0 <= k < decimal(n).len() ==> 48 <= #[trigger] decimal(n)[k] <= 57,
        n > 0 ==> decimal(n)[0] != 48,
        digits_value(decimal(n)) == n,
    decreases n,
{
    if n >= 10 {
        lemma_decimal_round_trip(n / 10);
        let d = decimal(n);
        assert(d.drop_last() =~= decimal(n / 10));
        assert(d[0] == decimal(n / 10)[0]);
        assert(d.last() == digit_byte((n % 10) as int));
        assert(digit_byte((n % 10) as int) == 48 + n % 10);
        assert((n / 10) * 10 + n % 10 == n) by (nonlinear_arith);
        assert(digits_value(d) == digits_value(d.drop_last()) * 10 + (d.last() - 48));
    } else {
        let d = decimal(n);
        assert(d.drop_last() =~= Seq::<u8>::empty());
        assert(d.last() == 48 + n);
        assert(digits_value(d) == digits_value(d.drop_last()) * 10 + (d.last() - 48));
        assert(digits_value(d.drop_last()) == 0);
    }
}

/// A format without `%` needs no arguments and comes out unchanged.
pub proof fn lemma_plain_format(format: Seq<u8>, args: Seq<PrintfArg>)
    requires
        forall|k: int| 0 <= k < format.len() ==> format[k] != PERCENT,
    ensures
        render(format, args) == Some(format),
    decreases format.len(),
{
    if format.len() > 0 {
        assert(format[0] != PERCENT);
        let rest = format.drop_first();
        assert forall|k: int| 0 <= k < rest.len() implies rest[k] != PERCENT by {
            assert(rest[k] == format[k + 1]);
        }
        lemma_plain_format(rest, args);
        assert(format =~= seq![format[0]] + rest);
    } else {
        assert(format =~= Seq::<u8>::empty());
    }
}

/// `%%` gives exactly one `%`, wherever it stands, and takes no argument.
pub proof fn lemma_percent_escape(f: Seq<u8>, args: Seq<PrintfArg>)
    ensures
        render(seq![37u8, 37u8] + f, args) == match render(f, args) {
            Some(r) => Some(seq![37u8] + r),
            None => None,
        },
{
    let g = seq![37u8, 37u8] + f;
    assert(g[0] == 37u8 && g[1] == 37u8);
    assert(g.skip(2) =~= f);
}

/// `%s` gives exactly the bytes of its argument, which it takes from the front.
pub proof fn lemma_string_conversion(f: Seq<u8>, s: &[u8], args: Seq<PrintfArg>)
    ensures
        render(seq![37u8, 115u8] + f, seq![PrintfArg::Str(s)] + args) == match render(f, args) {
            Some(r) => Some(s@ + r),
            None => None,
        },
        render(seq![37u8, 115u8] + f, Seq::<PrintfArg>::empty()) is None,
{
    let g = seq![37u8, 115u8] + f;
    assert(g[0] == 37u8 && g[1] == 115u8);
    assert(g.skip(2) =~= f);
    let a = seq![PrintfArg::Str(s)] + args;
    assert(a[0] == PrintfArg::Str(s));
    assert(a.drop_first() =~= args);
}

/// `%d` and `%i` give the text of their integer argument, taken from the
/// front: `-` before the magnitude when it is negative, then decimal digits
/// without leading zeros whose value is the magnitude.
pub proof fn lemma_integer_conversion(f: Seq<u8>, n: i32, args: Seq<PrintfArg>, spec: u8)
    requires
        spec == 100u8 || spec == 105u8,
    ensures
        render(seq![37u8, spec] + f, seq![PrintfArg::Int(n)] + args) == match render(f, args) {
            Some(r) => Some(int_text(n) + r),
            None => None,
        },
        n >= 0 ==> digits_value(int_text(n)) == n,
        n < 0 ==> int_text(n)[0] == 45u8 && digits_value(int_text(n).drop_first()) == -n,
        forall|k: int|
            (if n < 0 { 1int } else { 0int }) <= k < int_text(n).len() ==> 48 <= #[trigger] int_text(
                n,
            )[k] <= 57,
        int_text(n).len() >= (if n < 0 { 2int } else { 1int }),
        int_text(n)[if n < 0 { 1int } else { 0int }] == 48u8 ==> n == 0,
{
    let g = seq![37u8, spec] + f;
    assert(g[0] == 37u8 && g[1] == spec);
    assert(g.skip(2) =~= f);
    let a = seq![PrintfArg::Int(n)] + args;
    assert(a[0] == PrintfArg::Int(n));
    assert(a.drop_first() =~= args);
    if n < 0 {
        lemma_decimal_round_trip((-n) as nat);
        assert(int_text(n).drop_first() =~= decimal((-n) as nat));
        assert forall|k: int| 1 <= k < int_text(n).len() implies 48 <= #[trigger] int_text(n)[k]
            <= 57 by {
            assert(int_text(n)[k] == decimal((-n) as nat)[k - 1]);
        }
    } else {
        lemma_decimal_round_trip(n as nat);
    }
}

/// A byte other than `%` is copied as is; `%` followed by a byte other than
/// `s`, `d`, `i` or `%` is kept with that byte; a `%` that ends the format is kept.
pub proof fn lemma_other_bytes(f: Seq<u8>, b: u8, c: u8, args: Seq<PrintfArg>)
    requires
        b != 37u8,
        c != 115u8 && c != 100u8 && c != 105u8 && c != 37u8,
    ensures
        render(seq![b] + f, args) == match render(f, args) {
            Some(r) => Some(seq![b] + r),
            None => None,
        },
        render(seq![37u8, c] + f, args) == match render(f, args) {
            Some(r) => Some(seq![37u8, c] + r),
            None => None,
        },
        render(seq![37u8], args) == Some(seq![37u8]),
{
    let g = seq![b] + f;
    assert(g[0] == b);
    assert(g.drop_first() =~= f);
    let h = seq![37u8, c] + f;
    assert(h[0] == 37u8 && h[1] == c);
    assert(h.skip(2) =~= f);
}

/// The buffer keeps the first 128 bytes of the output: all of it when it is
/// shorter, exactly 128 when it is longer.
pub proof fn lemma_clip_keeps_first_bytes(s: Seq<u8>)
    ensures
        s.len() <= 128 ==> clip(s) == s,
        s.len() > 128 ==> clip(s).len() == 128 && clip(s) == s.take(128),
{
}

/// Clipping after appending to a clipped sequence is clipping the whole.
proof fn lemma_clip_append(p: Seq<u8>, q: Seq<u8>)
    ensures
        clip(clip(p) + q) == clip(p + q),
{
    if p.len() <= PRINTF_BUFFER_SIZE {
    } else {
        assert(clip(clip(p) + q) =~= clip(p + q));
    }
}

/// Appends `b` to the buffer if there is room.
fn push_clipped(buf: &mut Vec<u8>, b: u8, Ghost(produced): Ghost<Seq<u8>>)
    requires
        old(buf)@ == clip(produced),
    ensures
        final(buf)@ == clip(produced.push(b)),
{
    proof {
        lemma_clip_append(produced, seq![b]);
        assert(produced.push(b) == produced + seq![b]);
        assert(clip(produced).push(b) == clip(produced) + seq![b]);
    }
    if buf.len() < PRINTF_BUFFER_SIZE {
        buf.push(b);
    }
}

/// The digits of `n`, most significant first.
fn decimal_digits(n: u32) -> (digits: Vec<u8>)
    ensures
        digits@ == decimal(n as nat),
{
    let mut reversed: Vec<u8> = Vec::new();
    let mut m = n;
    if m == 0 {
        reversed.push(48u8);
    } else {
        while m != 0
            invariant
                m <= n,
                n > 0,
                decimal(n as nat) == (if m == 0 {
                    Seq::<u8>::empty()
                } else {
                    decimal(m as nat)
                }) + reversed@.reverse(),
            decreases m,
        {
            let digit = (m % 10) as u8;
            proof {
                let ghost before = reversed@;
                assert(before.push(digit_byte((m % 10) as int)).reverse() =~= seq![digit_byte((m % 10) as int)]
                    + before.reverse());
            }
            reversed.push(digit + 48);
            m = m / 10;
        }
        assert(decimal(n as nat) =~= reversed@.reverse());
    }
    let mut digits: Vec<u8> = Vec::new();
    let mut k = reversed.len();
    while k > 0
        invariant
            k <= reversed@.len(),
            digits@ == reversed@.reverse().take(reversed@.len() - k),
        decreases k,
    {
        k = k - 1;
        digits.push(reversed[k]);
        assert(digits@ =~= reversed@.reverse().take(reversed@.len() - k));
    }
    assert(reversed@.reverse().take(reversed@.len() as int) =~= reversed@.reverse());
    if n == 0 {
        assert(reversed@.reverse() =~= decimal(0));
    }
    digits
}

/// Once the buffer is full, more output changes nothing.
proof fn lemma_clip_full(p: Seq<u8>, q: Seq<u8>)
    requires
        clip(p).len() >= PRINTF_BUFFER_SIZE,
    ensures
        clip(p + q) == clip(p),
{
    assert(clip(p + q) =~= clip(p));
}

/// Appends `bytes` while there is room.
fn push_bytes_clipped(buf: &mut Vec<u8>, bytes: &[u8], Ghost(produced): Ghost<Seq<u8>>)
    requires
        old(buf)@ == clip(produced),
    ensures
        final(buf)@ == clip(produced + bytes@),
{
    let n = bytes.len();
    let mut k: usize = 0;
    while k < n
        invariant
            k <= n == bytes@.len(),
            buf@ == clip(produced + bytes@.take(k as int)),
        decreases n - k,
    {
        if buf.len() < PRINTF_BUFFER_SIZE {
            let ghost before = produced + bytes@.take(k as int);
            push_clipped(buf, bytes[k], Ghost(before));
            k = k + 1;
            assert(before.push(bytes@[k - 1]) =~= produced + bytes@.take(k as int));
        } else {
            proof {
                lemma_clip_full(produced + bytes@.take(k as int), bytes@.skip(k as int));
                assert(produced + bytes@.take(k as int) + bytes@.skip(k as int) =~= produced
                    + bytes@);
            }
            return;
        }
    }
    assert(bytes@.take(n as int) =~= bytes@);
}

/// Appends the text of `n`: `-` if negative, then the digits of its magnitude.
fn push_int_clipped(buf: &mut Vec<u8>, n: i32, Ghost(produced): Ghost<Seq<u8>>)
    requires
        old(buf)@ == clip(produced),
    ensures
        final(buf)@ == clip(produced + int_text(n)),
{
    if n < 0 {
        push_clipped(buf, MINUS, Ghost(produced));
        let magnitude = (0i64 - n as i64) as u32;
        let digits = decimal_digits(magnitude);
        push_bytes_clipped(buf, digits.as_slice(), Ghost(produced.push(MINUS)));
        assert(produced.push(MINUS) + digits@ =~= produced + int_text(n));
    } else {
        let digits = decimal_digits(n as u32);
        push_bytes_clipped(buf, digits.as_slice(), Ghost(produced));
    }
}

/// `printf(format, args...)`: the bytes it writes to standard output, the
/// rendering of the bytes of `format` with `args` cut to
/// [`PRINTF_BUFFER_SIZE`] bytes. The arguments must match the conversions.
pub fn printf(format: &[u8], args: &[PrintfArg]) -> (out: Vec<u8>)
    requires
        render(format@, args@) is Some,
    ensures
        out@ == clip(render(format@, args@).unwrap()),
{
    let mut buf: Vec<u8> = Vec::new();
    let ghost mut produced: Seq<u8> = Seq::empty();
    let len = format.len();
    let mut i: usize = 0;
    let mut next_arg: usize = 0;
    assert(format@.skip(0) =~= format@);
    assert(args@.skip(0) =~= args@);
    assert(produced + render(format@, args@).unwrap() =~= render(format@, args@).unwrap());
    while i < len
        invariant
            i <= len == format@.len(),
            next_arg <= args@.len(),
            buf@ == clip(produced),
            render(format@.skip(i as int), args@.skip(next_arg as int)) is Some,
            render(format@, args@).unwrap() == produced + render(
                format@.skip(i as int),
                args@.skip(next_arg as int),
            ).unwrap(),
        decreases len - i,
    {
        let ghost fmt_rest = format@.skip(i as int);
        let ghost args_rest = args@.skip(next_arg as int);
        let ghost total = render(format@, args@).unwrap();
        let c = format[i];
        assert(fmt_rest[0] == c);
        if c == PERCENT {
            if i + 1 < len {
                let spec = format[i + 1];
                assert(fmt_rest[1] == spec);
                assert(fmt_rest.skip(2) =~= format@.skip(i + 2));
                if spec == 115u8 || spec == 100u8 || spec == 105u8 {
                    assert(args_rest.len() > 0);
                    let arg = args[next_arg];
                    assert(args_rest[0] == arg);
                    assert(args_rest.drop_first() =~= args@.skip(next_arg + 1));
                    match arg {
                        PrintfArg::Str(s) => {
                            push_bytes_clipped(&mut buf, s, Ghost(produced));
                            proof {
                                produced = produced + s@;
                            }
                        },
                        PrintfArg::Int(n) => {
                            push_int_clipped(&mut buf, n, Ghost(produced));
                            proof {
                                produced = produced + int_text(n);
                            }
                        },
                    }
                    next_arg = next_arg + 1;
                } else if spec == PERCENT {
                    push_clipped(&mut buf, PERCENT, Ghost(produced));
                    proof {
                        produced = produced.push(PERCENT);
                    }
                } else {
                    push_clipped(&mut buf, PERCENT, Ghost(produced));
                    proof {
                        produced = produced.push(PERCENT);
                    }
                    push_clipped(&mut buf, spec, Ghost(produced));
                    proof {
                        produced = produced.push(spec);
                    }
                }
                i = i + 2;
            } else {
                push_clipped(&mut buf, PERCENT, Ghost(produced));
                proof {
                    produced = produced.push(PERCENT);
                }
                i = i + 1;
            }
        } else {
            push_clipped(&mut buf, c, Ghost(produced));
            proof {
                produced = produced.push(c);
            }
            assert(fmt_rest.drop_first() =~= format@.skip(i + 1));
            i = i + 1;
        }
        assert(total =~= produced + render(format@.skip(i as int), args@.skip(next_arg as int)).unwrap());
    }
    buf
}

/// Whether `printf` can format `format` with `args`: every conversion has
/// an argument of its kind.
pub fn printf_accepts(format: &[u8], args: &[PrintfArg]) -> (ok: bool)
    ensures
        ok == render(format@, args@) is Some,
{
    let len = format.len();
    let mut i: usize = 0;
    let mut next_arg: usize = 0;
    assert(format@.skip(0) =~= format@);
    assert(args@.skip(0) =~= args@);
    while i < len
        invariant
            i <= len == format@.len(),
            next_arg <= args@.len(),
            (render(format@, args@) is Some) == (render(
                format@.skip(i as int),
                args@.skip(next_arg as int),
            ) is Some),
        decreases len - i,
    {
        let ghost fmt_rest = format@.skip(i as int);
        let ghost args_rest = args@.skip(next_arg as int);
        let c = format[i];
        assert(fmt_rest[0] == c);
        if c == PERCENT {
            if i + 1 < len {
                let spec = format[i + 1];
                assert(fmt_rest[1] == spec);
                assert(fmt_rest.skip(2) =~= format@.skip(i + 2));
                if spec == 115u8 || spec == 100u8 || spec == 105u8 {
                    if next_arg >= args.len() {
                        return false;
                    }
                    let arg = args[next_arg];
                    assert(args_rest[0] == arg);
                    assert(args_rest.drop_first() =~= args@.skip(next_arg + 1));
                    let fits = match arg {
                        PrintfArg::Str(_) => spec == 115u8,
                        PrintfArg::Int(_) => spec != 115u8,
                    };
                    if !fits {
                        return false;
                    }
                    next_arg = next_arg + 1;
                }
                i = i + 2;
            } else {
                return true;
            }
        } else {
            assert(fmt_rest.drop_first() =~= format@.skip(i + 1));
            i = i + 1;
        }
    }
    true
}

/// What `printf` returns once `write_buf` of its bytes gave `result`: the
/// count written (as a C `int`), or [`EOF`] on failure.
pub fn printf_result(result: Result<usize, usize>) -> (r: i32)
    ensures
        r == match result {
            Ok(n) => n as i32,
            Err(_) => EOF,
        },
{
    match result {
        Ok(n) => n as i32,
        Err(_) => EOF,
    }
}

} // verus!
