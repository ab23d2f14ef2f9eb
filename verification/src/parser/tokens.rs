//! The smallest pieces: fixed words, runs of one class of bytes, numbers.

use vstd::prelude::*;
use vstd::string::*;
use crate::parser::grammar;
use crate::parser::grammar::ByteClass;
use crate::parser::ParseResult;

verus! {

pub fn fold_case(b: u8) -> (folded: u8)
    ensures
        folded == grammar::fold_case(b),
{
    if 0x61 <= b && b <= 0x7a {
        b - 0x20
    } else {
        b
    }
}

/// Reads the fixed word `w` at `pos`, in any case of letters if `caseless`.
pub fn word(input: &[u8], pos: usize, w: &str, caseless: bool) -> (result: ParseResult<()>)
    requires
        pos <= input.len(),
    ensures
        result@ == grammar::word(input@, pos as int, w.spec_bytes(), caseless),
        result matches ParseResult::Success(_, next) ==> pos <= next <= input.len(),
{
    let expected = w.as_bytes();
    let mut k: usize = 0;
    while k < expected.len()
        invariant
            pos <= input.len(),
            k <= expected.len(),
            k <= input.len() - pos,
            expected@ == w.spec_bytes(),
            forall|m: int|
                0 <= m < k ==> grammar::same_byte(
                    #[trigger] input@[pos as int + m],
                    expected@[m],
                    caseless,
                ),
        decreases expected.len() - k,
    {
        if input.len() - pos <= k {
            return ParseResult::Incomplete;
        }
        let a = input[pos + k];
        let b = expected[k];
        let same = if caseless {
            fold_case(a) == fold_case(b)
        } else {
            a == b
        };
        if !same {
            assert(!grammar::same_byte(input@[pos as int + k as int], expected@[k as int], caseless));
            return ParseResult::Error;
        }
        k += 1;
    }
    ParseResult::Success((), pos + k)
}

/// Reads the byte `b` at `pos`.
pub fn byte(input: &[u8], pos: usize, b: u8) -> (result: ParseResult<()>)
    requires
        pos <= input.len(),
    ensures
        result@ == grammar::byte(input@, pos as int, b),
        result matches ParseResult::Success(_, next) ==> next == pos + 1 && next <= input.len(),
{
    if pos >= input.len() {
        ParseResult::Incomplete
    } else if input[pos] == b {
        ParseResult::Success((), pos + 1)
    } else {
        ParseResult::Error
    }
}

/// Reads the line break at `pos`.
pub fn crlf(input: &[u8], pos: usize) -> (result: ParseResult<()>)
    requires
        pos <= input.len(),
    ensures
        result@ == grammar::crlf(input@, pos as int),
        result matches ParseResult::Success(_, next) ==> pos < next <= input.len(),
{
    proof {
        reveal_strlit("\r\n");
        is_ascii_spec_bytes("\r\n");
        assert("\r\n".spec_bytes() =~= seq![0x0du8, 0x0au8]);
    }
    word(input, pos, "\r\n", false)
}

impl ByteClass {
    pub fn has(&self, b: u8) -> (yes: bool)
        ensures
            yes == self.admits(b),
    {
        match self {
            ByteClass::Blank => b == 0x20 || b == 0x09,
            ByteClass::Digit => 0x30 <= b && b <= 0x39,
            ByteClass::Name => (0x30 <= b && b <= 0x39) || (0x41 <= b && b <= 0x5a) || (0x61 <= b
                && b <= 0x7a) || b == 0x2d || b == 0x5f || b == 0x2e || b == 0x2f,
        }
    }
}

/// A run continues through every byte of its class.
pub proof fn lemma_run_end(s: Seq<u8>, i: int, j: int, class: ByteClass)
    requires
        0 <= i <= j <= s.len(),
        forall|k: int| i <= k < j ==> class.admits(#[trigger] s[k]),
    ensures
        grammar::run_end(s, i, class) == grammar::run_end(s, j, class),
    decreases j - i,
{
    if i < j {
        lemma_run_end(s, i + 1, j, class);
    }
}

/// Reads one or more bytes of `class` at `pos`.
pub fn run(input: &[u8], pos: usize, class: ByteClass) -> (result: ParseResult<()>)
    requires
        pos <= input.len(),
    ensures
        result@ == grammar::run(input@, pos as int, class),
        result matches ParseResult::Success(_, next) ==> pos < next < input.len(),
{
    let mut j: usize = pos;
    while j < input.len() && class.has(input[j])
        invariant
            pos <= j <= input.len(),
            forall|k: int| pos <= k < j ==> class.admits(#[trigger] input@[k]),
        decreases input.len() - j,
    {
        j += 1;
    }
    proof {
        lemma_run_end(input@, pos as int, j as int, class);
    }
    if j >= input.len() {
        ParseResult::Incomplete
    } else if j == pos {
        ParseResult::Error
    } else {
        ParseResult::Success((), j)
    }
}

/// Appending a digit multiplies by ten and adds the digit.
pub proof fn lemma_decimal_value_push(s: Seq<u8>, i: int, j: int)
    requires
        0 <= i <= j < s.len(),
    ensures
        grammar::decimal_value(s.subrange(i, j + 1)) == grammar::decimal_value(s.subrange(i, j))
            * 10 + (s[j] - 0x30) as nat,
{
    assert(s.subrange(i, j + 1).drop_last() =~= s.subrange(i, j));
}

/// Reads one or more digits at `pos` that stand for a number of 64 bits.
pub fn number(input: &[u8], pos: usize) -> (result: ParseResult<u64>)
    requires
        pos <= input.len(),
    ensures
        result@ == grammar::number(input@, pos as int),
        result matches ParseResult::Success(_, next) ==> pos < next < input.len(),
{
    match run(input, pos, ByteClass::Digit) {
        ParseResult::Success(_, end) => {
            let mut value: u64 = 0;
            let mut fits = true;
            let mut k: usize = pos;
            proof {
                lemma_digits(input@, pos as int, end as int);
            }
            while k < end
                invariant
                    pos <= k <= end < input.len(),
                    forall|m: int| pos <= m < end ==> ByteClass::Digit.admits(#[trigger] input@[m]),
                    fits ==> value == grammar::decimal_value(input@.subrange(pos as int, k as int)),
                    !fits ==> grammar::decimal_value(input@.subrange(pos as int, k as int))
                        > u64::MAX,
                decreases end - k,
            {
                proof {
                    lemma_decimal_value_push(input@, pos as int, k as int);
                }
                let d: u64 = (input[k] - 0x30) as u64;
                if fits {
                    if value > (u64::MAX - d) / 10 {
                        fits = false;
                    } else {
                        value = value * 10 + d;
                    }
                }
                k += 1;
            }
            if fits {
                ParseResult::Success(value, end)
            } else {
                ParseResult::Error
            }
        },
        ParseResult::Incomplete => ParseResult::Incomplete,
        ParseResult::Error => ParseResult::Error,
    }
}

/// Every byte of a run belongs to its class.
pub proof fn lemma_digits(s: Seq<u8>, i: int, j: int)
    requires
        0 <= i <= j <= s.len(),
        grammar::run_end(s, i, ByteClass::Digit) == j,
    ensures
        forall|m: int| i <= m < j ==> ByteClass::Digit.admits(#[trigger] s[m]),
    decreases j - i,
{
    if i < j {
        lemma_digits(s, i + 1, j);
    }
}

} // verus!
