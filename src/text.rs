use vstd::prelude::*;

verus! {

/// The decimal digit `d` (below ten) as a character.
pub open spec fn digit_char(d: nat) -> char {
    if d == 0 { '0' }
    else if d == 1 { '1' }
    else if d == 2 { '2' }
    else if d == 3 { '3' }
    else if d == 4 { '4' }
    else if d == 5 { '5' }
    else if d == 6 { '6' }
    else if d == 7 { '7' }
    else if d == 8 { '8' }
    else { '9' }
}

/// The decimal digits of `n`, most significant first, with no leading zero.
pub open spec fn digits(n: nat) -> Seq<char>
    decreases n,
{
    if n < 10 {
        seq![digit_char(n)]
    } else {
        digits(n / 10).push(digit_char(n % 10))
    }
}

/// `n` in decimal, with a leading `-` when negative.
pub open spec fn decimal(n: int) -> Seq<char> {
    if n < 0 {
        seq!['-'] + digits((-n) as nat)
    } else {
        digits(n as nat)
    }
}

/// How an exit code is shown: its decimal form, or `unknown` when the child
/// was ended without one (by a signal).
pub open spec fn code_text(code: Option<i32>) -> Seq<char> {
    match code {
        Some(c) => decimal(c as int),
        None => "unknown"@,
    }
}

/// A line without its terminator: one trailing `\n`, or `\r\n`, is dropped.
pub open spec fn line_body(b: Seq<u8>) -> Seq<u8> {
    if b.len() >= 2 && b[b.len() - 2] == 13u8 && b[b.len() - 1] == 10u8 {
        b.subrange(0, b.len() - 2)
    } else if b.len() >= 1 && b[b.len() - 1] == 10u8 {
        b.subrange(0, b.len() - 1)
    } else {
        b
    }
}

/// The text that `String::from_utf8_lossy` makes of some bytes.
pub uninterp spec fn lossy_text(b: Seq<u8>) -> Seq<char>;

/// Relies on `String::from_utf8_lossy`: decodes UTF-8, replacing each invalid
/// sequence with U+FFFD; the text depends on the bytes alone and it never fails.
#[verifier::external_body]
pub(crate) fn decode_lossy(b: &[u8]) -> (r: String)
    ensures
        r@ == lossy_text(b@),
{
    String::from_utf8_lossy(b).into_owned()
}

fn digit_str(d: u64) -> (r: &'static str)
    requires
        d < 10,
    ensures
        r@ == seq![digit_char(d as nat)],
{
    proof {
        reveal_strlit("0");
        reveal_strlit("1");
        reveal_strlit("2");
        reveal_strlit("3");
        reveal_strlit("4");
        reveal_strlit("5");
        reveal_strlit("6");
        reveal_strlit("7");
        reveal_strlit("8");
        reveal_strlit("9");
    }
    if d == 0 { "0" }
    else if d == 1 { "1" }
    else if d == 2 { "2" }
    else if d == 3 { "3" }
    else if d == 4 { "4" }
    else if d == 5 { "5" }
    else if d == 6 { "6" }
    else if d == 7 { "7" }
    else if d == 8 { "8" }
    else { "9" }
}

fn push_digits(s: &mut String, n: u64)
    ensures
        final(s)@ == old(s)@ + digits(n as nat),
    decreases n,
{
    if n >= 10 {
        push_digits(s, n / 10);
    }
    s.append(digit_str(n % 10));
    assert(final(s)@ =~= old(s)@ + digits(n as nat));
}

/// The text that stands for an exit code in the termination line.
pub fn exit_code_text(code: Option<i32>) -> (r: String)
    ensures
        r@ == code_text(code),
{
    match code {
        Some(c) => {
            let mut s = String::new();
            if c < 0 {
                s.append("-");
                proof {
                    reveal_strlit("-");
                }
                let m: i64 = -(c as i64);
                push_digits(&mut s, m as u64);
                assert(s@ =~= code_text(code));
            } else {
                push_digits(&mut s, c as u64);
                assert(s@ =~= code_text(code));
            }
            s
        },
        None => String::from_str("unknown"),
    }
}

/// Copies a line of output without its terminator.
pub fn trim_line_end(b: &Vec<u8>) -> (r: Vec<u8>)
    ensures
        r@ == line_body(b@),
{
    let n = b.len();
    let keep: usize = if n >= 2 && b[n - 2] == 13u8 && b[n - 1] == 10u8 {
        n - 2
    } else if n >= 1 && b[n - 1] == 10u8 {
        n - 1
    } else {
        n
    };
    let mut r: Vec<u8> = Vec::new();
    let mut i: usize = 0;
    while i < keep
        invariant
            keep <= n == b@.len(),
            i <= keep,
            r@ == b@.subrange(0, i as int),
        decreases keep - i,
    {
        r.push(b[i]);
        i += 1;
        assert(r@ =~= b@.subrange(0, i as int));
    }
    assert(r@ =~= line_body(b@));
    r
}


/// Where a log line comes from: the child's standard output, its standard
/// error, or the supervisor's own notes on the child's lifecycle.
#[derive(PartialEq, Eq, Structural, Clone, Copy, Debug)]
pub enum Source {
    Stdout,
    Stderr,
    Child,
}

/// The tag that opens every log line from `s`.
pub open spec fn tag(s: Source) -> Seq<char> {
    match s {
        Source::Stdout => "[child stdout] "@,
        Source::Stderr => "[child stderr] "@,
        Source::Child => "[child] "@,
    }
}

/// A log line: the tag of its source, then the text.
pub fn tagged_line(source: Source, text: &str) -> (r: String)
    ensures
        r@ == tag(source) + text@,
{
    let mut s = match source {
        Source::Stdout => String::from_str("[child stdout] "),
        Source::Stderr => String::from_str("[child stderr] "),
        Source::Child => String::from_str("[child] "),
    };
    s.append(text);
    s
}

} // verus!
