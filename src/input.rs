//! Turning one line of console input into an integer.
//!
//! The console itself (showing the prompt, flushing, reading the line) lives
//! with the caller; this module decides what a line that was read, or the end
//! of input, amounts to.

use core::num::ParseIntError;
use vstd::prelude::*;
use vstd::string::*;

verus! {

#[verifier::external_type_specification]
#[verifier::external_body]
pub struct ExParseIntError(core::num::ParseIntError);

/// Why a value could not be obtained from the console.
#[derive(Debug, PartialEq, Eq)]
pub enum InputError {
    /// Flushing the prompt or reading the line failed, or no line was left;
    /// the payload describes the cause.
    IoError(String),
    /// The trimmed line is not an integer of the target type.
    ParseError { text: String, cause: ParseIntError },
}

/// The characters with the Unicode `White_Space` property.
pub open spec fn is_white_space(c: char) -> bool {
    let u = c as u32;
    (9 <= u <= 13) || u == 32 || u == 0x85 || u == 0xa0 || u == 0x1680 || (0x2000 <= u <= 0x200a)
        || u == 0x2028 || u == 0x2029 || u == 0x202f || u == 0x205f || u == 0x3000
}

pub open spec fn all_white_space(s: Seq<char>) -> bool {
    forall|i: int| 0 <= i < s.len() ==> is_white_space(#[trigger] s[i])
}

/// `s` without its leading white space.
pub open spec fn trim_start(s: Seq<char>) -> Seq<char>
    decreases s.len(),
{
    if s.len() > 0 && is_white_space(s[0]) {
        trim_start(s.drop_first())
    } else {
        s
    }
}

/// `s` without its trailing white space.
pub open spec fn trim_end(s: Seq<char>) -> Seq<char>
    decreases s.len(),
{
    if s.len() > 0 && is_white_space(s.last()) {
        trim_end(s.drop_last())
    } else {
        s
    }
}

/// `s` without leading and trailing white space (line terminators included).
pub open spec fn trim(s: Seq<char>) -> Seq<char> {
    trim_end(trim_start(s))
}

pub open spec fn is_digit(c: char) -> bool {
    48 <= (c as u32) <= 57
}

pub open spec fn all_digits(s: Seq<char>) -> bool {
    forall|i: int| 0 <= i < s.len() ==> is_digit(#[trigger] s[i])
}

/// The number that a string of decimal digits denotes.
pub open spec fn digits_value(s: Seq<char>) -> int
    decreases s.len(),
{
    if s.len() == 0 {
        0
    } else {
        10 * digits_value(s.drop_last()) + (s.last() as u32 - 48)
    }
}

/// The integer that `s` writes in decimal: an optional `+` or `-` followed by
/// one or more digits, and nothing else.
pub open spec fn decimal_value(s: Seq<char>) -> Option<int> {
    if s.len() > 0 && (s[0] == '+' || s[0] == '-') {
        let body = s.drop_first();
        if body.len() > 0 && all_digits(body) {
            Some(if s[0] == '-' { -digits_value(body) } else { digits_value(body) })
        } else {
            None
        }
    } else if s.len() > 0 && all_digits(s) {
        Some(digits_value(s))
    } else {
        None
    }
}

/// The `isize` that `s` writes, if it writes one in range.
pub open spec fn isize_value(s: Seq<char>) -> Option<int> {
    match decimal_value(s) {
        Some(v) => if isize::MIN <= v <= isize::MAX {
            Some(v)
        } else {
            None
        },
        None => None,
    }
}

/// The value that a line read from the console stands for.
pub open spec fn line_value(line: Seq<char>) -> Option<int> {
    isize_value(trim(line))
}

/// Relies on `str::parse::<isize>` (`FromStr` for `isize`): it accepts an
/// optional sign followed by decimal digits whose value is in range, and
/// rejects everything else.
#[verifier::external_body]
fn parse_isize(s: &str) -> (r: Result<isize, ParseIntError>)
    ensures
        match r {
            Ok(v) => isize_value(s@) == Some(v as int),
            Err(_) => isize_value(s@) is None,
        },
{
    s.parse::<isize>()
}

/// Whether `c` is white space.
pub fn is_white_space_char(c: char) -> (r: bool)
    ensures
        r == is_white_space(c),
{
    let u = c as u32;
    (9 <= u && u <= 13) || u == 32 || u == 0x85 || u == 0xa0 || u == 0x1680 || (0x2000 <= u && u
        <= 0x200a) || u == 0x2028 || u == 0x2029 || u == 0x202f || u == 0x205f || u == 0x3000
}

/// `s` with leading and trailing white space removed.
pub fn trim_white_space(s: &str) -> (r: &str)
    ensures
        r@ == trim(s@),
{
    let n = s.unicode_len();
    let mut start: usize = 0;
    assert(s@.subrange(0, n as int) =~= s@);
    while start < n && is_white_space_char(s.get_char(start))
        invariant
            start <= n,
            n == s@.len(),
            trim_start(s@) == trim_start(s@.subrange(start as int, n as int)),
        decreases n - start,
    {
        assert(s@.subrange(start as int, n as int).drop_first() =~= s@.subrange(
            start as int + 1,
            n as int,
        ));
        start = start + 1;
    }
    assert(trim_start(s@) == s@.subrange(start as int, n as int));
    let mut end: usize = n;
    while end > start && is_white_space_char(s.get_char(end - 1))
        invariant
            start <= end <= n,
            n == s@.len(),
            trim(s@) == trim_end(s@.subrange(start as int, end as int)),
        decreases end - start,
    {
        assert(s@.subrange(start as int, end as int).drop_last() =~= s@.subrange(
            start as int,
            end as int - 1,
        ));
        end = end - 1;
    }
    s.substring_char(start, end)
}

/// The value on a line read from the console, or why there is none.
///
/// `None` stands for the end of input, where no line was left to read. A line
/// is trimmed of surrounding white space, and what remains must be an `isize`
/// written in decimal; otherwise the error carries the trimmed text.
pub fn parse_user_input(line: Option<&str>) -> (r: Result<isize, InputError>)
    ensures
        match line {
            None => r matches Err(InputError::IoError(_)),
            Some(raw) => match r {
                Ok(v) => line_value(raw@) == Some(v as int),
                Err(InputError::ParseError { text, .. }) => line_value(raw@) is None && text@ == trim(
                    raw@,
                ),
                Err(InputError::IoError(_)) => false,
            },
        },
{
    match line {
        None => Err(InputError::IoError(String::from_str("no line left to read"))),
        Some(raw) => {
            let trimmed = trim_white_space(raw);
            match parse_isize(trimmed) {
                Ok(v) => Ok(v),
                Err(cause) => Err(InputError::ParseError { text: String::from_str(trimmed), cause }),
            }
        },
    }
}

proof fn lemma_trim_start_white_prefix(pre: Seq<char>, x: Seq<char>)
    requires
        all_white_space(pre),
    ensures
        trim_start(pre + x) == trim_start(x),
    decreases pre.len(),
{
    if pre.len() == 0 {
        assert(pre + x =~= x);
    } else {
        assert((pre + x).drop_first() =~= pre.drop_first() + x);
        lemma_trim_start_white_prefix(pre.drop_first(), x);
    }
}

proof fn lemma_trim_end_white_suffix(x: Seq<char>, post: Seq<char>)
    requires
        all_white_space(post),
    ensures
        trim_end(x + post) == trim_end(x),
    decreases post.len(),
{
    if post.len() == 0 {
        assert(x + post =~= x);
    } else {
        assert((x + post).drop_last() =~= x + post.drop_last());
        lemma_trim_end_white_suffix(x, post.drop_last());
    }
}

proof fn lemma_trim_white_suffix(x: Seq<char>, post: Seq<char>)
    requires
        all_white_space(post),
    ensures
        trim(x + post) == trim(x),
    decreases x.len(),
{
    if x.len() == 0 {
        assert(x + post =~= post);
        assert(post + Seq::<char>::empty() =~= post);
        lemma_trim_start_white_prefix(post, Seq::<char>::empty());
    } else if is_white_space(x[0]) {
        assert((x + post).drop_first() =~= x.drop_first() + post);
        lemma_trim_white_suffix(x.drop_first(), post);
    } else {
        lemma_trim_end_white_suffix(x, post);
    }
}

proof fn lemma_trim_start_shape(s: Seq<char>)
    ensures
        trim_start(s).len() == 0 || !is_white_space(trim_start(s)[0]),
    decreases s.len(),
{
    if s.len() > 0 && is_white_space(s[0]) {
        lemma_trim_start_shape(s.drop_first());
    }
}

proof fn lemma_trim_end_shape(s: Seq<char>)
    ensures
        trim_end(s).len() <= s.len(),
        trim_end(s) == s.subrange(0, trim_end(s).len() as int),
        trim_end(s).len() == 0 || !is_white_space(trim_end(s).last()),
    decreases s.len(),
{
    if s.len() > 0 && is_white_space(s.last()) {
        lemma_trim_end_shape(s.drop_last());
        assert(trim_end(s) =~= s.subrange(0, trim_end(s).len() as int));
    } else {
        assert(s =~= s.subrange(0, s.len() as int));
    }
}

proof fn lemma_trim_of_bare(s: Seq<char>)
    requires
        s.len() == 0 || (!is_white_space(s[0]) && !is_white_space(s.last())),
    ensures
        trim(s) == s,
{
}

/// Trimming twice is trimming once.
pub proof fn lemma_trim_idempotent(s: Seq<char>)
    ensures
        trim(trim(s)) == trim(s),
{
    lemma_trim_start_shape(s);
    lemma_trim_end_shape(trim_start(s));
    lemma_trim_of_bare(trim(s));
}

/// Surrounding white space does not matter: a line with white space before
/// and after some text reads as the text alone, and as the text already
/// stripped; the trimmed text that an error would carry is the same too.
pub proof fn lemma_surrounding_white_space(pre: Seq<char>, s: Seq<char>, post: Seq<char>)
    requires
        all_white_space(pre),
        all_white_space(post),
    ensures
        trim(pre + s + post) == trim(s),
        line_value(pre + s + post) == line_value(s),
        line_value(pre + s + post) == line_value(trim(s)),
{
    assert(pre + s + post =~= pre + (s + post));
    lemma_trim_start_white_prefix(pre, s + post);
    lemma_trim_white_suffix(s, post);
    lemma_trim_idempotent(s);
}

/// A value written in decimal and followed by a line terminator reads back as
/// that value.
pub proof fn lemma_written_value_reads_back(s: Seq<char>, v: int)
    requires
        isize_value(s) == Some(v),
    ensures
        line_value(s.push('\n')) == Some(v),
{
    assert(s.push('\n') =~= s + seq!['\n']);
    assert(is_white_space('\n'));
    lemma_trim_white_suffix(s, seq!['\n']);
    if s[0] == '+' || s[0] == '-' {
        assert(s.drop_first().last() == s.last());
        assert(is_digit(s.drop_first()[s.drop_first().len() - 1]));
    } else {
        assert(is_digit(s[s.len() - 1]));
    }
    lemma_trim_of_bare(s);
}

} // verus!
