//! Error values as enums and structs, errors with a cause, errors from
//! integer parsing propagated with `?`, and errors that carry context.
use vstd::prelude::*;
use vstd::string::*;
use crate::text::{
    contains,
    decimal,
    occurs_at,
    parse_i32,
    parse_int,
    parse_u16,
    parse_u32,
    push_decimal,
    trim,
    trimmed,
    IntErrorKind,
};

verus! {

/// An error with two plain variants.
#[derive(Debug, Clone, Copy, PartialEq, Eq, Structural)]
pub enum MyError {
    Variant1,
    Variant2,
}

impl MyError {
    /// The text shown for the error.
    pub fn message(&self) -> (r: &'static str)
        ensures
            r@ == match self {
                MyError::Variant1 => "Error of Variant 1"@,
                MyError::Variant2 => "Error of Variant 2"@,
            },
    {
        match self {
            MyError::Variant1 => "Error of Variant 1",
            MyError::Variant2 => "Error of Variant 2",
        }
    }
}

/// Fails with `Variant1` for 1, `Variant2` for 2, succeeds otherwise.
pub fn function_that_fails(cond: u8) -> (r: Result<(), MyError>)
    ensures
        r == (if cond == 1 {
            Err::<(), MyError>(MyError::Variant1)
        } else if cond == 2 {
            Err(MyError::Variant2)
        } else {
            Ok(())
        }),
{
    match cond {
        1 => Err(MyError::Variant1),
        2 => Err(MyError::Variant2),
        _ => Ok(()),
    }
}

/// An error that is the cause of another.
#[derive(Debug, Clone, Copy, PartialEq, Eq, Structural)]
pub enum AnotherError {
    SubError,
}

impl AnotherError {
    pub fn message(&self) -> (r: &'static str)
        ensures
            r@ == "Another error occurred"@,
    {
        "Another error occurred"
    }
}

/// An error that records its underlying cause.
#[derive(Debug, Clone, Copy, PartialEq, Eq, Structural)]
pub enum MyErrorWithSource {
    VariantWithCause(AnotherError),
}

impl MyErrorWithSource {
    pub fn message(&self) -> (r: &'static str)
        ensures
            r@ == "Error with underlying cause"@,
    {
        "Error with underlying cause"
    }

    /// The underlying cause.
    pub fn source(&self) -> (r: Option<&AnotherError>)
        ensures
            r == match self {
                MyErrorWithSource::VariantWithCause(e) => Some(e),
            },
    {
        match self {
            MyErrorWithSource::VariantWithCause(e) => Some(e),
        }
    }
}

/// Always fails with a cause attached.
pub fn function_with_cause() -> (r: Result<(), MyErrorWithSource>)
    ensures
        r == Err::<(), MyErrorWithSource>(MyErrorWithSource::VariantWithCause(AnotherError::SubError)),
{
    Err(MyErrorWithSource::VariantWithCause(AnotherError::SubError))
}

/// Errors of an age check, with the data needed to explain them.
#[derive(Debug, Clone, Copy, PartialEq, Eq, Structural)]
pub enum AgeError {
    TooYoung { age: u8, min: u8 },
    TooOld { age: u8, max: u8 },
    Invalid,
}

impl AgeError {
    /// The text shown for the error.
    pub fn message(&self) -> (r: String)
        ensures
            r@ == match self {
                AgeError::TooYoung { age, min } => "Age too young: "@ + decimal(*age as nat)
                    + " < "@ + decimal(*min as nat),
                AgeError::TooOld { age, max } => "Age too old: "@ + decimal(*age as nat) + " > "@
                    + decimal(*max as nat),
                AgeError::Invalid => "Invalid age"@,
            },
    {
        match self {
            AgeError::TooYoung { age, min } => {
                let mut r = String::from_str("Age too young: ");
                push_decimal(&mut r, *age as u64);
                r.append(" < ");
                push_decimal(&mut r, *min as u64);
                r
            },
            AgeError::TooOld { age, max } => {
                let mut r = String::from_str("Age too old: ");
                push_decimal(&mut r, *age as u64);
                r.append(" > ");
                push_decimal(&mut r, *max as u64);
                r
            },
            AgeError::Invalid => String::from_str("Invalid age"),
        }
    }
}

/// An error with several descriptive fields.
#[derive(Debug, PartialEq, Eq)]
pub struct DatabaseError {
    pub details: String,
    pub datetime: String,
    pub code: u16,
    pub sql: String,
}

impl DatabaseError {
    /// `DatabaseError {code}: {details} ({sql} at {datetime})`.
    pub fn message(&self) -> (r: String)
        ensures
            r@ == "DatabaseError "@ + decimal(self.code as nat) + ": "@ + self.details@ + " ("@
                + self.sql@ + " at "@ + self.datetime@ + ")"@,
    {
        let mut r = String::from_str("DatabaseError ");
        push_decimal(&mut r, self.code as u64);
        r.append(": ");
        r.append(self.details.as_str());
        r.append(" (");
        r.append(self.sql.as_str());
        r.append(" at ");
        r.append(self.datetime.as_str());
        r.append(")");
        r
    }
}

/// A plain string used as the error value.
pub fn string_error() -> (r: Result<(), String>)
    ensures
        r matches Err(e) && e@ == "This is an error as string"@,
{
    Err(String::from_str("This is an error as string"))
}

/// Text of a parse error, as shown by the standard library.
pub open spec fn int_error_text(k: IntErrorKind) -> Seq<char> {
    match k {
        IntErrorKind::Empty => "cannot parse integer from empty string"@,
        IntErrorKind::InvalidDigit => "invalid digit found in string"@,
        IntErrorKind::PosOverflow => "number too large to fit in target type"@,
        IntErrorKind::NegOverflow => "number too small to fit in target type"@,
    }
}

impl IntErrorKind {
    /// The text shown for the error.
    pub fn message(&self) -> (r: &'static str)
        ensures
            r@ == int_error_text(*self),
    {
        match self {
            IntErrorKind::Empty => "cannot parse integer from empty string",
            IntErrorKind::InvalidDigit => "invalid digit found in string",
            IntErrorKind::PosOverflow => "number too large to fit in target type",
            IntErrorKind::NegOverflow => "number too small to fit in target type",
        }
    }
}

/// Reads `s` as an `i32` and doubles it; a parse error is passed on.
pub fn parse_and_double(s: &str) -> (r: Result<i32, IntErrorKind>)
    requires
        parse_int(s@, i32::MIN as int, i32::MAX as int) matches Ok(n) ==> i32::MIN <= 2 * n
            <= i32::MAX,
    ensures
        match parse_int(s@, i32::MIN as int, i32::MAX as int) {
            Ok(n) => r == Ok::<i32, IntErrorKind>((2 * n) as i32),
            Err(e) => r == Err::<i32, IntErrorKind>(e),
        },
{
    let n: i32 = parse_i32(s)?;
    Ok(n * 2)
}

/// A byte sequence is valid UTF-8 (`std::str::from_utf8` succeeds).
/// Claims: `Ok` exactly for the byte sequences that are valid UTF-8, in the
/// sense of vstd's `valid_utf8`.
#[verifier::external_body]
fn utf8_is_valid(bytes: &[u8]) -> (r: bool)
    ensures
        r == vstd::utf8::valid_utf8(bytes@),
{
    std::str::from_utf8(bytes).is_ok()
}

/// The three kinds of failure met in [`multiple_errors`].
#[derive(Debug, Clone, Copy, PartialEq, Eq, Structural)]
pub enum MultiError {
    ParseInt(IntErrorKind),
    TryFromInt,
    Utf8,
}

/// `u16` to `u8`, failing above 255 (`u8::try_from`).
pub fn u8_try_from(x: u16) -> (r: Result<u8, MultiError>)
    ensures
        x <= 255 ==> r == Ok::<u8, MultiError>(x as u8),
        x > 255 ==> r == Err::<u8, MultiError>(MultiError::TryFromInt),
{
    if x <= 255 {
        Ok(x as u8)
    } else {
        Err(MultiError::TryFromInt)
    }
}

/// Reads `bytes` as UTF-8 text (`std::str::from_utf8`), failing with
/// `Utf8` when they are not valid UTF-8.
pub fn validate_utf8(bytes: &[u8]) -> (r: Result<(), MultiError>)
    ensures
        r == (if vstd::utf8::valid_utf8(bytes@) {
            Ok::<(), MultiError>(())
        } else {
            Err(MultiError::Utf8)
        }),
{
    if utf8_is_valid(bytes) {
        Ok(())
    } else {
        Err(MultiError::Utf8)
    }
}

/// Three fallible steps joined by `?`: parsing `"abc"` as `u32`, narrowing
/// 256 to `u8`, and reading `[0xFF, 0xFE]` as UTF-8; the first one fails.
pub fn multiple_errors() -> (r: Result<(), MultiError>)
    ensures
        r == Err::<(), MultiError>(MultiError::ParseInt(IntErrorKind::InvalidDigit)),
{
    let parsed = parse_u32("abc");
    proof {
        reveal_strlit("abc");
        assert(!crate::text::is_digit("abc"@[0]));
    }
    match parsed {
        Ok(_) => {},
        Err(e) => {
            return Err(MultiError::ParseInt(e));
        },
    }
    let _narrow = u8_try_from(256u16)?;
    let bytes: [u8; 2] = [0xFF, 0xFE];
    validate_utf8(&bytes)?;
    Ok(())
}

/// A boxed-string error: only its message can be inspected.
pub fn error_as_string() -> (r: Result<(), String>)
    ensures
        r matches Err(e) && e@ == "This is an error as string"@,
{
    string_error()
}

/// Why a port could not be loaded.
#[derive(Debug, PartialEq, Eq)]
pub enum PortError {
    /// The file could not be read; holds the path.
    Read(String),
    /// The contents are not a `u16`.
    Parse(IntErrorKind),
    /// The port is 0.
    Zero,
}

impl PortError {
    /// The outermost context of the error.
    pub fn message(&self) -> (r: String)
        ensures
            r@ == match self {
                PortError::Read(path) => "Reading port file: "@ + path@,
                PortError::Parse(_) => "Parsing port as u16"@,
                PortError::Zero => "Port cannot be 0"@,
            },
    {
        match self {
            PortError::Read(path) => {
                let mut r = String::from_str("Reading port file: ");
                r.append(path.as_str());
                r
            },
            PortError::Parse(_) => String::from_str("Parsing port as u16"),
            PortError::Zero => String::from_str("Port cannot be 0"),
        }
    }
}

/// Loads a port number: a path mentioning `no_existe` cannot be read;
/// otherwise the contents `8080` are trimmed and parsed, and 0 is refused.
pub fn load_port(path: &str) -> (r: Result<u16, PortError>)
    ensures
        (exists|i: int| occurs_at(path@, "no_existe"@, i)) ==> (r matches Err(PortError::Read(p))
            && p@ == path@),
        !(exists|i: int| occurs_at(path@, "no_existe"@, i)) ==> match parse_int(
            trimmed("8080"@),
            0,
            u16::MAX as int,
        ) {
            Ok(n) => if n == 0 {
                r == Err::<u16, PortError>(PortError::Zero)
            } else {
                r == Ok::<u16, PortError>(n as u16)
            },
            Err(e) => r == Err::<u16, PortError>(PortError::Parse(e)),
        },
{
    if contains(path, "no_existe") {
        return Err(PortError::Read(String::from_str(path)));
    }
    let contents: &str = "8080";
    let port = match parse_u16(trim(contents)) {
        Ok(p) => p,
        Err(e) => {
            return Err(PortError::Parse(e));
        },
    };
    if port == 0 {
        return Err(PortError::Zero);
    }
    Ok(port)
}

/// A parse failure wrapped in a line of context.
#[derive(Debug, PartialEq, Eq)]
pub struct ContextError {
    pub context: String,
    pub cause: IntErrorKind,
}

impl ContextError {
    /// The messages from the outermost context to the root cause.
    pub fn chain(&self) -> (r: Vec<String>)
        ensures
            r@.len() == 2,
            r@[0]@ == self.context@,
            r@[1]@ == int_error_text(self.cause),
    {
        let mut r: Vec<String> = Vec::new();
        r.push(self.context.clone());
        r.push(String::from_str(self.cause.message()));
        r
    }

    /// The root cause.
    pub fn root_cause(&self) -> (r: IntErrorKind)
        ensures
            r == self.cause,
    {
        self.cause
    }
}

/// Parses `"abc"` as an `i32` with the context `Parsing integer`.
pub fn fail_parse() -> (r: Result<(), ContextError>)
    ensures
        r matches Err(e) && e.context@ == "Parsing integer"@ && e.cause
            == IntErrorKind::InvalidDigit,
{
    let parsed = parse_i32("abc");
    proof {
        reveal_strlit("abc");
        assert(!crate::text::is_digit("abc"@[0]));
    }
    match parsed {
        Ok(_) => Ok(()),
        Err(e) => Err(ContextError { context: String::from_str("Parsing integer"), cause: e }),
    }
}

/// Failures of a database operation.
#[derive(Debug, PartialEq, Eq)]
pub enum DatabaseFailure {
    /// A number could not be parsed.
    ParseInt(IntErrorKind),
    /// A query failed; holds the query and the message of its cause.
    QueryFailed { query: String, cause: String },
}

impl DatabaseFailure {
    pub fn message(&self) -> (r: String)
        ensures
            r@ == match self {
                DatabaseFailure::ParseInt(k) => "Parse int error: "@ + int_error_text(*k),
                DatabaseFailure::QueryFailed { query, .. } => "Query failed: "@ + query@,
            },
    {
        match self {
            DatabaseFailure::ParseInt(k) => {
                let mut r = String::from_str("Parse int error: ");
                r.append(k.message());
                r
            },
            DatabaseFailure::QueryFailed { query, .. } => {
                let mut r = String::from_str("Query failed: ");
                r.append(query.as_str());
                r
            },
        }
    }
}

/// Parses `"abc"` as a `u32` (converting the error with `?`), then would
/// report a lost connection for `SELECT * FROM users`; the parse fails first.
pub fn db_operation() -> (r: Result<(), DatabaseFailure>)
    ensures
        r == Err::<(), DatabaseFailure>(DatabaseFailure::ParseInt(IntErrorKind::InvalidDigit)),
{
    let parsed = parse_u32("abc");
    proof {
        reveal_strlit("abc");
        assert(!crate::text::is_digit("abc"@[0]));
    }
    if let Err(e) = parsed {
        return Err(DatabaseFailure::ParseInt(e));
    }
    Err(
        DatabaseFailure::QueryFailed {
            query: String::from_str("SELECT * FROM users"),
            cause: String::from_str("connection lost"),
        },
    )
}

} // verus!
