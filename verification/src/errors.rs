//! The ways in which decoding a container can fail.
use vstd::prelude::*;
use vstd::string::StringExecFns;

verus! {

/// Why a buffer could not be decoded. Every error is final: nothing is retried
/// and no partial result is handed out.
#[derive(Debug)]
pub enum DSStoreError {
    /// A fixed-size header field could not be cut to its width.
    HeaderTooSmall,
    /// The first eight bytes are not the container's signature.
    BadMagic,
    /// The two copies of the root offset in the header disagree.
    OffsetsDontMatch,
    /// A name or tag is not valid UTF-8, a looked-up name or block is
    /// missing, or the tree is deeper than its descriptor declares.
    BadToc,
    /// A UTF-16 field does not decode to a string.
    BadString,
    /// A read, skip or jump asked for a position beyond the buffer; carries the
    /// position that would have been required (the largest `usize` where the
    /// position itself does not fit).
    TooLittleData(usize),
    /// A failure while the caller was loading the buffer, as text.
    Io(String),
}

/// The error for a step that needs the buffer to reach `end`.
pub open spec fn out_of_data(end: int) -> DSStoreError {
    DSStoreError::TooLittleData(
        if end > usize::MAX as int {
            usize::MAX
        } else {
            end as usize
        },
    )
}

/// The character of the decimal digit `d`.
pub open spec fn digit(d: nat) -> char
    recommends
        d < 10,
{
    if d == 0 {
        '0'
    } else if d == 1 {
        '1'
    } else if d == 2 {
        '2'
    } else if d == 3 {
        '3'
    } else if d == 4 {
        '4'
    } else if d == 5 {
        '5'
    } else if d == 6 {
        '6'
    } else if d == 7 {
        '7'
    } else if d == 8 {
        '8'
    } else {
        '9'
    }
}

/// The decimal numeral of `n`, without leading zeros.
pub open spec fn decimal(n: nat) -> Seq<char>
    decreases n,
{
    if n < 10 {
        seq![digit(n)]
    } else {
        decimal(n / 10).push(digit(n % 10))
    }
}

/// The numeral of one decimal digit.
fn digit_str(d: usize) -> (r: &'static str)
    requires
        d < 10,
    ensures
        r@ == seq![digit(d as nat)],
{
    proof {
        reveal_strlit("0");
        reveal_strlit("1");
        reveal_strlit("2");
        reveal_strlit("3");
        reveal_strlit("4");
        reveal_strlit("5");
        reveal_strlit("6");
        reveal_strlit("7");
        reveal_strlit("8");
        reveal_strlit("9");
    }
    let r = if d == 0 {
        "0"
    } else if d == 1 {
        "1"
    } else if d == 2 {
        "2"
    } else if d == 3 {
        "3"
    } else if d == 4 {
        "4"
    } else if d == 5 {
        "5"
    } else if d == 6 {
        "6"
    } else if d == 7 {
        "7"
    } else if d == 8 {
        "8"
    } else {
        "9"
    };
    assert(r@ =~= seq![digit(d as nat)]);
    r
}

/// Appends the decimal numeral of `n` to `out`.
pub fn push_decimal(out: &mut String, n: usize)
    ensures
        final(out)@ == old(out)@ + decimal(n as nat),
    decreases n,
{
    if n >= 10 {
        push_decimal(out, n / 10);
    }
    out.append(digit_str(n % 10));
    assert(out@ =~= old(out)@ + decimal(n as nat));
}

impl DSStoreError {
    /// The text that describes the error to a person.
    pub open spec fn text(&self) -> Seq<char> {
        match self {
            DSStoreError::HeaderTooSmall => "header size is less than 36b"@,
            DSStoreError::BadMagic => "invalid magic"@,
            DSStoreError::OffsetsDontMatch => "parity offets don't match"@,
            DSStoreError::BadToc => "failed parsing toc key, bad offset?"@,
            DSStoreError::BadString => "failed to convert utf16 to utf8"@,
            DSStoreError::TooLittleData(r) => "requested more data than available ("@ + decimal(
                *r as nat,
            ) + ")"@,
            DSStoreError::Io(message) => message@,
        }
    }

    /// The text that describes the error to a person.
    pub fn message(&self) -> (r: String)
        ensures
            r@ == self.text(),
    {
        match self {
            DSStoreError::HeaderTooSmall => "header size is less than 36b".to_owned(),
            DSStoreError::BadMagic => "invalid magic".to_owned(),
            DSStoreError::OffsetsDontMatch => "parity offets don't match".to_owned(),
            DSStoreError::BadToc => "failed parsing toc key, bad offset?".to_owned(),
            DSStoreError::BadString => "failed to convert utf16 to utf8".to_owned(),
            DSStoreError::TooLittleData(r) => {
                let mut out: String = "requested more data than available (".to_owned();
                push_decimal(&mut out, *r);
                out.append(")");
                out
            },
            DSStoreError::Io(message) => message.clone(),
        }
    }
}

} // verus!
