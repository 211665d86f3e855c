use vstd::prelude::*;

verus! {

/// How the program runs: as the master of a render cluster listening on a
/// port, as a slave sending its canvases to the master at an address, or
/// on its own.
///
/// The slave address is carried as the text given on the command line; the
/// caller that opens the connection is the one that interprets it.
#[derive(Debug)]
pub enum AppMode {
    Master(u16),
    Slave(String),
    Single,
}

/// Why a command line was rejected.
#[derive(Clone, Copy, PartialEq, Eq, Structural, Debug)]
pub enum ModeError {
    /// The argument after `--master` is not a port number.
    InvalidPort,
    /// `--master` came without a port.
    NoPortSpecified,
    /// `--slave` came without an address.
    NoMasterAddressSpecified,
    /// The first argument is neither `--master` nor `--slave`.
    UnrecognisedParameter,
}

/// A decimal digit.
pub open spec fn is_digit(c: char) -> bool {
    48 <= c as u32 <= 57
}

/// The value of a decimal digit.
pub open spec fn digit_val(c: char) -> int {
    c as u32 - 48
}

/// Nothing but decimal digits.
pub open spec fn is_digit_seq(s: Seq<char>) -> bool {
    forall|i: int| 0 <= i < s.len() ==> is_digit(#[trigger] s[i])
}

/// The number written in decimal.
pub open spec fn decimal_value(s: Seq<char>) -> int
    decreases s.len(),
{
    if s.len() == 0 {
        0
    } else {
        decimal_value(s.drop_last()) * 10 + digit_val(s.last())
    }
}

/// What a port argument means: a nonempty string of digits whose value
/// fits in sixteen bits, and nothing else.
pub open spec fn spec_parse_port(s: Seq<char>) -> Option<u16> {
    if s.len() > 0 && is_digit_seq(s) && decimal_value(s) <= 65535 {
        Some(decimal_value(s) as u16)
    } else {
        None
    }
}

/// A string of digits has a nonnegative value.
proof fn lemma_decimal_nonneg(s: Seq<char>)
    requires
        is_digit_seq(s),
    ensures
        decimal_value(s) >= 0,
    decreases s.len(),
{
    if s.len() > 0 {
        assert(is_digit_seq(s.drop_last()));
        lemma_decimal_nonneg(s.drop_last());
    }
}

/// Reading further digits never shrinks the value.
proof fn lemma_decimal_prefix_le(s: Seq<char>, i: int)
    requires
        is_digit_seq(s),
        0 <= i <= s.len(),
    ensures
        decimal_value(s.take(i)) <= decimal_value(s),
    decreases s.len() - i,
{
    if i < s.len() {
        lemma_decimal_prefix_le(s, i + 1);
        assert(s.take(i + 1).drop_last() =~= s.take(i));
        assert(s.take(i + 1).last() == s[i]);
        assert(is_digit_seq(s.take(i)));
        lemma_decimal_nonneg(s.take(i));
        assert(decimal_value(s.take(i)) * 10 >= decimal_value(s.take(i)));
    } else {
        assert(s.take(i) =~= s);
    }
}

/// Whether two strings hold the same characters.
pub fn str_eq(a: &str, b: &str) -> (r: bool)
    ensures
        r == (a@ == b@),
{
    let na = a.unicode_len();
    let nb = b.unicode_len();
    if na != nb {
        return false;
    }
    let mut i: usize = 0;
    while i < na
        invariant
            i <= na,
            na == a@.len(),
            nb == b@.len(),
            na == nb,
            forall|k: int| 0 <= k < i ==> a@[k] == b@[k],
        decreases na - i,
    {
        if a.get_char(i) != b.get_char(i) {
            return false;
        }
        i = i + 1;
    }
    assert(a@ =~= b@);
    true
}

/// Parses a port number: the digits' value, if the string is nothing but
/// digits and the value fits.
pub fn parse_port(s: &str) -> (r: Option<u16>)
    ensures
        r == spec_parse_port(s@),
{
    let n = s.unicode_len();
    if n == 0 {
        return None;
    }
    let mut acc: u32 = 0;
    let mut i: usize = 0;
    assert(s@.take(0) =~= Seq::<char>::empty());
    while i < n
        invariant
            i <= n,
            n == s@.len(),
            acc <= 65535,
            forall|k: int| 0 <= k < i ==> is_digit(#[trigger] s@[k]),
            acc == decimal_value(s@.take(i as int)),
        decreases n - i,
    {
        let c = s.get_char(i);
        let code = c as u32;
        if code < 48 || code > 57 {
            // A non-digit anywhere makes the whole string invalid.
            return None;
        }
        let d = code - 48;
        let next: u32 = acc * 10 + d;
        proof {
            assert(s@.take(i as int + 1).drop_last() =~= s@.take(i as int));
            assert(s@.take(i as int + 1).last() == s@[i as int]);
        }
        if next > 65535 {
            // The digits read so far already exceed a port; more digits
            // can only grow the value.
            proof {
                if is_digit_seq(s@) {
                    lemma_decimal_prefix_le(s@, i as int + 1);
                }
            }
            return None;
        }
        acc = next;
        i = i + 1;
    }
    assert(s@.take(n as int) =~= s@);
    Some(acc as u16)
}

/// Decides the application mode from the command line: the program's name,
/// then possibly `--master` with a port or `--slave` with the master's
/// address. Arguments past those are ignored, as they always were.
pub fn parse_mode(args: &Vec<String>) -> (r: Result<AppMode, ModeError>)
    ensures
        args@.len() <= 1 ==> r == Ok::<AppMode, ModeError>(AppMode::Single),
        args@.len() >= 3 && args@[1]@ == "--master"@ ==> (match spec_parse_port(args@[2]@) {
            Some(p) => r == Ok::<AppMode, ModeError>(AppMode::Master(p)),
            None => r == Err::<AppMode, ModeError>(ModeError::InvalidPort),
        }),
        args@.len() == 2 && args@[1]@ == "--master"@ ==> r == Err::<AppMode, ModeError>(
            ModeError::NoPortSpecified,
        ),
        args@.len() >= 3 && args@[1]@ == "--slave"@ ==> (r matches Ok(AppMode::Slave(a))
            && a@ == args@[2]@),
        args@.len() == 2 && args@[1]@ == "--slave"@ ==> r == Err::<AppMode, ModeError>(
            ModeError::NoMasterAddressSpecified,
        ),
        args@.len() >= 2 && args@[1]@ != "--master"@ && args@[1]@ != "--slave"@ ==> r == Err::<
            AppMode,
            ModeError,
        >(ModeError::UnrecognisedParameter),
{
    proof {
        reveal_strlit("--master");
        reveal_strlit("--slave");
        assert("--master"@.len() == 8);
        assert("--slave"@.len() == 7);
    }
    if args.len() <= 1 {
        return Ok(AppMode::Single);
    }
    let flag = &args[1];
    if str_eq(flag.as_str(), "--master") {
        // If --master is specified, try to parse the port.
        if args.len() >= 3 {
            match parse_port(args[2].as_str()) {
                Some(port) => Ok(AppMode::Master(port)),
                None => Err(ModeError::InvalidPort),
            }
        } else {
            Err(ModeError::NoPortSpecified)
        }
    } else if str_eq(flag.as_str(), "--slave") {
        // If --slave is specified, the master address follows; whoever
        // opens the connection interprets it.
        if args.len() >= 3 {
            Ok(AppMode::Slave(args[2].clone()))
        } else {
            Err(ModeError::NoMasterAddressSpecified)
        }
    } else {
        Err(ModeError::UnrecognisedParameter)
    }
}

} // verus!
