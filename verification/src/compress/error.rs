use vstd::prelude::*;

verus! {

/// What can go wrong when choosing or configuring a codec.
#[derive(Debug, PartialEq, Eq)]
pub enum CompressError {
    /// The extension is empty, so it names no format.
    EmptyExtension,
    /// The extension names no known format.
    UnknownFormat(String),
    /// A DEFLATE compression level above 9.
    InvalidLevel(u8),
    /// BGZF encoding with worker threads is not supported.
    MultithreadedBgzf,
}

/// The category of a [`CompressError`], as I/O errors are sorted.
#[derive(Debug, Clone, Copy, PartialEq, Eq, Structural)]
pub enum CompressErrorKind {
    /// A parameter was not acceptable.
    InvalidInput,
    /// Any other failure.
    Other,
}

/// The character of the decimal digit `d`, below ten.
pub open spec fn digit_char(d: nat) -> char {
    if d == 0 {
        '0'
    } else if d == 1 {
        '1'
    } else if d == 2 {
        '2'
    } else if d == 3 {
        '3'
    } else if d == 4 {
        '4'
    } else if d == 5 {
        '5'
    } else if d == 6 {
        '6'
    } else if d == 7 {
        '7'
    } else if d == 8 {
        '8'
    } else {
        '9'
    }
}

/// The decimal notation of `n`, without leading zeros.
pub open spec fn decimal(n: nat) -> Seq<char>
    decreases n,
{
    if n < 10 {
        seq![digit_char(n)]
    } else {
        decimal(n / 10) + seq![digit_char(n % 10)]
    }
}

/// The text of the decimal digit `d`.
fn digit_text(d: u8) -> (r: &'static str)
    requires
        d < 10,
    ensures
        r@ == seq![digit_char(d as nat)],
{
    proof {
        reveal_strlit("0");
        reveal_strlit("1");
        reveal_strlit("2");
        reveal_strlit("3");
        reveal_strlit("4");
        reveal_strlit("5");
        reveal_strlit("6");
        reveal_strlit("7");
        reveal_strlit("8");
        reveal_strlit("9");
    }
    match d {
        0 => "0",
        1 => "1",
        2 => "2",
        3 => "3",
        4 => "4",
        5 => "5",
        6 => "6",
        7 => "7",
        8 => "8",
        _ => "9",
    }
}

/// The decimal notation of `n`.
fn decimal_text(n: u8) -> (r: String)
    ensures
        r@ == decimal(n as nat),
    decreases n,
{
    if n < 10 {
        digit_text(n).to_owned()
    } else {
        let mut r = decimal_text(n / 10);
        r.append(digit_text(n % 10));
        r
    }
}

impl CompressError {
    /// The category of the error: every error but the refusal of threaded
    /// BGZF encoding is about an unacceptable parameter.
    pub fn kind(&self) -> (r: CompressErrorKind)
        ensures
            self is MultithreadedBgzf ==> r == CompressErrorKind::Other,
            !(self is MultithreadedBgzf) ==> r == CompressErrorKind::InvalidInput,
    {
        match self {
            CompressError::MultithreadedBgzf => CompressErrorKind::Other,
            _ => CompressErrorKind::InvalidInput,
        }
    }

    /// A description of the error for people to read.
    pub fn message(&self) -> (r: String)
        ensures
            self is EmptyExtension ==> r@ == "Can't infer format from empty extension"@,
            self matches CompressError::UnknownFormat(ext) ==> r@ == "Unknown format '"@ + ext@
                + "'"@,
            self matches CompressError::InvalidLevel(level) ==> r@
                == "Invalid DEFLATE compress level: "@ + decimal(level as nat),
            self is MultithreadedBgzf ==> r@ == "Multithreaded BGZF is not supported"@,
    {
        match self {
            CompressError::EmptyExtension => "Can't infer format from empty extension".to_owned(),
            CompressError::UnknownFormat(ext) => {
                let mut m = "Unknown format '".to_owned();
                m.append(ext.as_str());
                m.append("'");
                m
            },
            CompressError::InvalidLevel(level) => {
                let digits = decimal_text(*level);
                let mut m = "Invalid DEFLATE compress level: ".to_owned();
                m.append(digits.as_str());
                m
            },
            CompressError::MultithreadedBgzf => "Multithreaded BGZF is not supported".to_owned(),
        }
    }
}

} // verus!
