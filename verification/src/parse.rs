//! The reading of the arguments of a run: five numbers, a mode, and for a
//! search the digest to look for.

use vstd::prelude::*;
use vstd::string::StringSliceAdditionalSpecFns;
use vstd::utf8::encode_utf8;
use crate::program_mode::{ModeView, ProgramMode};
use crate::settings::Settings;
use crate::util::{hex_digest_spec, sha1_hex_to_bytes};

verus! {

/// Why a text is not the numeral of a number of the type asked for.
#[derive(Clone, Copy, Debug, PartialEq, Eq, Structural)]
pub enum NumberError {
    /// The text is empty.
    Empty,
    /// The text holds a character that is no digit, or nothing but a sign.
    InvalidDigit,
    /// The number is too large for the type.
    PosOverflow,
    /// The number is too small for the type.
    NegOverflow,
}

/// Reads the digits of `text` from left to right onto `acc`, each digit
/// weighing `sign`, and stops at the first character that is no digit or at
/// the first digit that takes the number out of `min ..= max`.
pub open spec fn read_digits(text: Seq<u8>, acc: int, sign: int, min: int, max: int) -> Result<
    int,
    NumberError,
>
    decreases text.len(),
{
    if text.len() == 0 {
        Ok(acc)
    } else if !(48 <= text[0] <= 57) {
        Err(NumberError::InvalidDigit)
    } else {
        let next = acc * 10 + sign * (text[0] - 48);
        if next > max {
            Err(NumberError::PosOverflow)
        } else if next < min {
            Err(NumberError::NegOverflow)
        } else {
            read_digits(text.drop_first(), next, sign, min, max)
        }
    }
}

/// The number that `text` is the decimal numeral of: digits, after a plus
/// sign if one likes, or after a minus sign where `signed` allows one.
pub open spec fn parse_number(text: Seq<u8>, signed: bool, min: int, max: int) -> Result<
    int,
    NumberError,
> {
    if text.len() == 0 {
        Err(NumberError::Empty)
    } else if text[0] == 43 || (signed && text[0] == 45) {
        if text.len() == 1 {
            Err(NumberError::InvalidDigit)
        } else {
            read_digits(text.drop_first(), 0, if text[0] == 43 { 1 } else { -1 }, min, max)
        }
    } else {
        read_digits(text, 0, 1, min, max)
    }
}

/// The `u32` that `text` is the numeral of.
pub open spec fn parse_u32_spec(text: Seq<u8>) -> Result<int, NumberError> {
    parse_number(text, false, 0, u32::MAX as int)
}

/// The `i32` that `text` is the numeral of.
pub open spec fn parse_i32_spec(text: Seq<u8>) -> Result<int, NumberError> {
    parse_number(text, true, i32::MIN as int, i32::MAX as int)
}

/// Reads the digits of `text` from position `from` on, each weighing
/// `sign`, into a number between `min` and `max`.
fn read_number(text: &[u8], from: usize, sign: i64, min: i64, max: i64) -> (number: Result<
    i64,
    NumberError,
>)
    requires
        from <= text.len(),
        sign == 1 || sign == -1,
        i32::MIN <= min <= 0 <= max <= u32::MAX,
    ensures
        number matches Ok(n) ==> min <= n <= max,
        match number {
            Ok(n) => read_digits(text@.skip(from as int), 0, sign as int, min as int, max as int)
                == Ok::<int, NumberError>(n as int),
            Err(e) => read_digits(text@.skip(from as int), 0, sign as int, min as int, max as int)
                == Err::<int, NumberError>(e),
        },
{
    let mut acc: i64 = 0;
    let mut i: usize = from;
    while i < text.len()
        invariant
            from <= i <= text.len(),
            sign == 1 || sign == -1,
            i32::MIN <= min <= 0 <= max <= u32::MAX,
            min <= acc <= max,
            read_digits(text@.skip(from as int), 0, sign as int, min as int, max as int)
                == read_digits(text@.skip(i as int), acc as int, sign as int, min as int, max as int),
        decreases text.len() - i,
    {
        let c: u8 = text[i];
        proof {
            assert(text@.skip(i as int).drop_first() =~= text@.skip(i + 1));
        }
        if c < 48 || c > 57 {
            return Err(NumberError::InvalidDigit);
        }
        let digit: i64 = (c - 48) as i64;
        let weighed: i64 = if sign == 1 {
            digit
        } else {
            -digit
        };
        assert(weighed == sign * digit) by (nonlinear_arith)
            requires
                (sign == 1 && weighed == digit) || (sign == -1 && weighed == -digit),
        ;
        let next: i64 = acc * 10 + weighed;
        if next > max {
            return Err(NumberError::PosOverflow);
        }
        if next < min {
            return Err(NumberError::NegOverflow);
        }
        acc = next;
        i += 1;
    }
    Ok(acc)
}

/// Reads `text` as the decimal numeral of a number between `min` and `max`.
fn parse_within(text: &[u8], signed: bool, min: i64, max: i64) -> (number: Result<
    i64,
    NumberError,
>)
    requires
        i32::MIN <= min <= 0 <= max <= u32::MAX,
    ensures
        number matches Ok(n) ==> min <= n <= max,
        match number {
            Ok(n) => parse_number(text@, signed, min as int, max as int) == Ok::<int, NumberError>(
                n as int,
            ),
            Err(e) => parse_number(text@, signed, min as int, max as int) == Err::<
                int,
                NumberError,
            >(e),
        },
{
    if text.len() == 0 {
        return Err(NumberError::Empty);
    }
    let first: u8 = text[0];
    proof {
        assert(text@.skip(0) =~= text@);
    }
    if first == 43 || (signed && first == 45) {
        if text.len() == 1 {
            Err(NumberError::InvalidDigit)
        } else if first == 43 {
            read_number(text, 1, 1, min, max)
        } else {
            read_number(text, 1, -1, min, max)
        }
    } else {
        read_number(text, 0, 1, min, max)
    }
}

/// Reads `text` as the decimal numeral of a `u32`, as the standard parser of
/// integers does.
pub fn parse_u32(text: &[u8]) -> (number: Result<u32, NumberError>)
    ensures
        match number {
            Ok(n) => parse_u32_spec(text@) == Ok::<int, NumberError>(n as int),
            Err(e) => parse_u32_spec(text@) == Err::<int, NumberError>(e),
        },
{
    match parse_within(text, false, 0, 0xffff_ffff) {
        Ok(n) => Ok(n as u32),
        Err(e) => Err(e),
    }
}

/// Reads `text` as the decimal numeral of an `i32`, as the standard parser
/// of integers does.
pub fn parse_i32(text: &[u8]) -> (number: Result<i32, NumberError>)
    ensures
        match number {
            Ok(n) => parse_i32_spec(text@) == Ok::<int, NumberError>(n as int),
            Err(e) => parse_i32_spec(text@) == Err::<int, NumberError>(e),
        },
{
    match parse_within(text, true, -0x8000_0000, 0x7fff_ffff) {
        Ok(n) => Ok(n as i32),
        Err(e) => Err(e),
    }
}

/// Why the arguments of a run could not be read.
#[derive(Debug)]
pub enum FromArgsError {
    /// There are neither six arguments nor seven, but this many.
    InvalidArgumentAmount(usize),
    /// The digest to search for is not forty hexadecimal characters.
    InvalidHash(String),
    /// The lock is neither 0 nor 1, but this number.
    InvalidLockNumber(i32),
    /// The mode is none of 0, 1 and 2, but this number.
    InvalidMode(i32),
    /// The argument of this name is no number.
    ParseError(&'static str, NumberError),
}

/// A `FromArgsError` as a plain value.
pub enum Fault {
    ArgumentAmount(int),
    Hash(Seq<char>),
    LockNumber(int),
    Mode(int),
    Number(Seq<char>, NumberError),
}

impl View for FromArgsError {
    type V = Fault;

    open spec fn view(&self) -> Fault {
        match self {
            FromArgsError::InvalidArgumentAmount(n) => Fault::ArgumentAmount(*n as int),
            FromArgsError::InvalidHash(text) => Fault::Hash(text@),
            FromArgsError::InvalidLockNumber(n) => Fault::LockNumber(*n as int),
            FromArgsError::InvalidMode(n) => Fault::Mode(*n as int),
            FromArgsError::ParseError(name, e) => Fault::Number(name@, *e),
        }
    }
}

/// The `u32` that argument `i` stands for; `name` is what the argument is
/// called where it does not.
pub open spec fn number_field(args: Seq<Seq<char>>, i: int, name: Seq<char>) -> Result<u32, Fault> {
    match parse_u32_spec(encode_utf8(args[i])) {
        Ok(n) => Ok(n as u32),
        Err(e) => Err(Fault::Number(name, e)),
    }
}

/// Whether the first argument asks for the lock of this library: 0 says
/// yes and 1 says no.
pub open spec fn lock_field(args: Seq<Seq<char>>) -> Result<bool, Fault> {
    match parse_i32_spec(encode_utf8(args[0])) {
        Ok(n) => if n == 0 {
            Ok(true)
        } else if n == 1 {
            Ok(false)
        } else {
            Err(Fault::LockNumber(n))
        },
        Err(e) => Err(Fault::Number("Lock"@, e)),
    }
}

/// The settings that the first five arguments stand for, or the fault of the
/// first of them that is at fault.
pub open spec fn settings_of(args: Seq<Seq<char>>) -> Result<Settings, Fault> {
    match lock_field(args) {
        Err(fault) => Err(fault),
        Ok(custom_lock) => match number_field(args, 1, "Bottom"@) {
            Err(fault) => Err(fault),
            Ok(bottom) => match number_field(args, 2, "Top"@) {
                Err(fault) => Err(fault),
                Ok(top) => match number_field(args, 3, "Modulo"@) {
                    Err(fault) => Err(fault),
                    Ok(modulo) => match number_field(args, 4, "Threads"@) {
                        Err(fault) => Err(fault),
                        Ok(threads) => Ok(Settings { custom_lock, bottom, top, modulo, threads }),
                    },
                },
            },
        },
    }
}

/// The mode that the sixth argument stands for, with the digest of the
/// seventh where the mode is a search.
pub open spec fn mode_of(args: Seq<Seq<char>>) -> Result<ModeView, Fault> {
    match parse_i32_spec(encode_utf8(args[5])) {
        Err(e) => Err(Fault::Number("Mode"@, e)),
        Ok(n) => if n == 0 {
            Ok(ModeView::Count)
        } else if n == 1 {
            Ok(ModeView::List)
        } else if n == 2 {
            match hex_digest_spec(encode_utf8(args[6])) {
                Some(hash) => Ok(ModeView::Search(hash)),
                None => Err(Fault::Hash(args[6])),
            }
        } else {
            Err(Fault::Mode(n))
        },
    }
}

/// Whether the arguments ask for a search and end before the digest.
pub open spec fn hash_missing(args: Seq<Seq<char>>) -> bool {
    &&& args.len() == 6
    &&& settings_of(args) is Ok
    &&& parse_i32_spec(encode_utf8(args[5])) == Ok::<int, NumberError>(2)
}

/// What the arguments stand for: the settings and the mode, or the first
/// fault met when the arguments are read in order. Their number is judged
/// first.
pub open spec fn from_args_spec(args: Seq<Seq<char>>) -> Result<(Settings, ModeView), Fault> {
    if args.len() != 6 && args.len() != 7 {
        Err(Fault::ArgumentAmount(args.len() as int))
    } else {
        match settings_of(args) {
            Err(fault) => Err(fault),
            Ok(settings) => match mode_of(args) {
                Err(fault) => Err(fault),
                Ok(mode) => Ok((settings, mode)),
            },
        }
    }
}

/// Whether `read` is what `expected` says, value for value.
pub open spec fn agrees(
    read: Result<(Settings, ProgramMode), FromArgsError>,
    expected: Result<(Settings, ModeView), Fault>,
) -> bool {
    match read {
        Ok((settings, mode)) => expected == Ok::<(Settings, ModeView), Fault>((settings, mode@)),
        Err(e) => expected == Err::<(Settings, ModeView), Fault>(e@),
    }
}

/// Reads argument `i` as a `u32`.
fn read_field(args: &Vec<String>, i: usize, name: &'static str) -> (number: Result<
    u32,
    FromArgsError,
>)
    requires
        i < args.len(),
    ensures
        match number {
            Ok(n) => number_field(args.deep_view(), i as int, name@) == Ok::<u32, Fault>(n),
            Err(e) => number_field(args.deep_view(), i as int, name@) == Err::<u32, Fault>(e@),
        },
{
    match parse_u32(args[i].as_str().as_bytes()) {
        Ok(n) => Ok(n),
        Err(e) => Err(FromArgsError::ParseError(name, e)),
    }
}

/// Reads the first argument.
fn read_lock(args: &Vec<String>) -> (lock: Result<bool, FromArgsError>)
    requires
        args.len() >= 1,
    ensures
        match lock {
            Ok(b) => lock_field(args.deep_view()) == Ok::<bool, Fault>(b),
            Err(e) => lock_field(args.deep_view()) == Err::<bool, Fault>(e@),
        },
{
    match parse_i32(args[0].as_str().as_bytes()) {
        Ok(n) => {
            if n == 0 {
                Ok(true)
            } else if n == 1 {
                Ok(false)
            } else {
                Err(FromArgsError::InvalidLockNumber(n))
            }
        },
        Err(e) => Err(FromArgsError::ParseError("Lock", e)),
    }
}

/// Reads the first five arguments.
fn read_settings(args: &Vec<String>) -> (settings: Result<Settings, FromArgsError>)
    requires
        args.len() >= 5,
    ensures
        match settings {
            Ok(s) => settings_of(args.deep_view()) == Ok::<Settings, Fault>(s),
            Err(e) => settings_of(args.deep_view()) == Err::<Settings, Fault>(e@),
        },
{
    let custom_lock = match read_lock(args) {
        Ok(b) => b,
        Err(e) => {
            return Err(e);
        },
    };
    let bottom: u32 = match read_field(args, 1, "Bottom") {
        Ok(n) => n,
        Err(e) => {
            return Err(e);
        },
    };
    let top: u32 = match read_field(args, 2, "Top") {
        Ok(n) => n,
        Err(e) => {
            return Err(e);
        },
    };
    let modulo: u32 = match read_field(args, 3, "Modulo") {
        Ok(n) => n,
        Err(e) => {
            return Err(e);
        },
    };
    let threads: u32 = match read_field(args, 4, "Threads") {
        Ok(n) => n,
        Err(e) => {
            return Err(e);
        },
    };
    Ok(Settings { custom_lock, bottom, top, modulo, threads })
}

/// Reads the arguments of a run, already cut into fields: the lock (0 or
/// 1), the bottom and the top of the range, the modulus, the number of
/// workers, the mode (0 to count, 1 to list, 2 to search), and for a search
/// the digest. Gives `None` where a search is asked for and the digest is
/// not there.
pub fn try_from_args(args: &Vec<String>) -> (read: Option<
    Result<(Settings, ProgramMode), FromArgsError>,
>)
    ensures
        read is None <==> hash_missing(args.deep_view()),
        read matches Some(r) ==> agrees(r, from_args_spec(args.deep_view())),
{
    if args.len() != 6 && args.len() != 7 {
        return Some(Err(FromArgsError::InvalidArgumentAmount(args.len())));
    }
    let settings = match read_settings(args) {
        Ok(s) => s,
        Err(e) => {
            return Some(Err(e));
        },
    };
    let number: i32 = match parse_i32(args[5].as_str().as_bytes()) {
        Ok(n) => n,
        Err(e) => {
            return Some(Err(FromArgsError::ParseError("Mode", e)));
        },
    };
    if number == 0 {
        Some(Ok((settings, ProgramMode::Count)))
    } else if number == 1 {
        Some(Ok((settings, ProgramMode::List)))
    } else if number == 2 {
        if args.len() == 6 {
            return None;
        }
        match sha1_hex_to_bytes(args[6].as_str()) {
            Some(hash) => Some(Ok((settings, ProgramMode::Search(hash)))),
            None => Some(Err(FromArgsError::InvalidHash(args[6].clone()))),
        }
    } else {
        Some(Err(FromArgsError::InvalidMode(number)))
    }
}

/// Reads the arguments of a run, already cut into fields; see
/// `try_from_args`. A search comes with its digest.
pub fn from_args(args: &Vec<String>) -> (read: Result<(Settings, ProgramMode), FromArgsError>)
    requires
        !hash_missing(args.deep_view()),
    ensures
        agrees(read, from_args_spec(args.deep_view())),
{
    match try_from_args(args) {
        Some(read) => read,
        None => vstd::pervasive::unreached(),
    }
}

} // verus!
