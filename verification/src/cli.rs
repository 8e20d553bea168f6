//! Command-line argument handling: the server's port and an optional
//! markdown file to serve.

use vstd::prelude::*;
use crate::utils::str_eq;

verus! {

/// An ASCII decimal digit.
pub open spec fn is_digit(c: char) -> bool {
    '0' <= c && c <= '9'
}

/// The value of one digit.
pub open spec fn digit_val(c: char) -> int {
    c as u32 - '0' as u32
}

/// Every character is a digit.
pub open spec fn all_digits(s: Seq<char>) -> bool {
    forall|i: int| 0 <= i < s.len() ==> is_digit(s[i])
}

/// The decimal value of a digit string.
pub open spec fn digits_val(s: Seq<char>) -> int
    decreases s.len(),
{
    if s.len() == 0 {
        0
    } else {
        digits_val(s.drop_last()) * 10 + digit_val(s.last())
    }
}

/// The digits of a number token: a single leading `+` sign is skipped.
pub open spec fn numeric_part(s: Seq<char>) -> Seq<char> {
    if s.len() > 0 && s[0] == '+' {
        s.drop_first()
    } else {
        s
    }
}

/// Whether a token reads as a 16-bit number: at least one digit after the
/// optional sign, nothing but digits, and a value that fits.
pub open spec fn parses_as_u16(s: Seq<char>) -> bool {
    let d = numeric_part(s);
    d.len() > 0 && all_digits(d) && digits_val(d) <= 65535
}

/// The value of a token that reads as a number.
pub open spec fn port_of(s: Seq<char>) -> int {
    digits_val(numeric_part(s))
}

/// A digit string has a nonnegative value.
proof fn lemma_digits_val_nonneg(s: Seq<char>)
    requires
        all_digits(s),
    ensures
        digits_val(s) >= 0,
    decreases s.len(),
{
    if s.len() > 0 {
        assert forall|i: int| 0 <= i < s.len() - 1 implies is_digit(s.drop_last()[i]) by {
            assert(s.drop_last()[i] == s[i]);
        }
        lemma_digits_val_nonneg(s.drop_last());
        assert(s.last() == s[s.len() - 1]);
    }
}

/// Appending digits never lowers the value: the whole string is worth at
/// least any of its prefixes.
proof fn lemma_digits_val_monotone(s: Seq<char>, i: int)
    requires
        all_digits(s),
        0 <= i <= s.len(),
    ensures
        digits_val(s) >= digits_val(s.take(i)),
    decreases s.len() - i,
{
    assert forall|k: int, j: int| 0 <= j <= s.len() && 0 <= k < j implies is_digit(
        s.take(j)[k],
    ) by {
        assert(s.take(j)[k] == s[k]);
    }
    if i < s.len() {
        lemma_digits_val_nonneg(s.take(i));
        assert(s.take(i + 1).drop_last() =~= s.take(i));
        assert(s.take(i + 1).last() == s[i]);
        assert(digits_val(s.take(i + 1)) >= digits_val(s.take(i)));
        lemma_digits_val_monotone(s, i + 1);
        assert(s.take(s.len() as int) =~= s);
    } else {
        assert(s.take(i) =~= s);
    }
}

fn digit_of(c: char) -> (r: Option<u32>)
    ensures
        match r {
            Some(v) => is_digit(c) && v == digit_val(c) && v <= 9,
            None => !is_digit(c),
        },
{
    if '0' <= c && c <= '9' {
        Some(c as u32 - '0' as u32)
    } else {
        None
    }
}

fn parse_port_digits(s: &str, start: usize) -> (r: Option<u16>)
    requires
        start <= s@.len(),
    ensures
        ({
            let d = s@.subrange(start as int, s@.len() as int);
            match r {
                Some(p) => d.len() > 0 && all_digits(d) && digits_val(d) <= 65535 && p
                    == digits_val(d),
                None => !(d.len() > 0 && all_digits(d) && digits_val(d) <= 65535),
            }
        }),
{
    let ghost d = s@.subrange(start as int, s@.len() as int);
    let len = s.unicode_len();
    if start == len {
        return None;
    }
    let mut acc: u32 = 0;
    let mut i = start;
    while i < len
        invariant
            len == s@.len(),
            d == s@.subrange(start as int, len as int),
            start <= i <= len,
            all_digits(d.take(i - start)),
            acc == digits_val(d.take(i - start)),
            acc <= 65535,
        decreases len - i,
    {
        let c = s.get_char(i);
        proof {
            assert(d.take(i - start + 1).drop_last() =~= d.take(i - start));
            assert(d.take(i - start + 1).last() == d[i - start] && d[i - start] == s@[i as int]);
        }
        match digit_of(c) {
            None => {
                proof {
                    assert(!is_digit(d[i - start]));
                }
                return None;
            },
            Some(v) => {
                acc = acc * 10 + v;
                if acc > 65535 {
                    proof {
                        if all_digits(d) {
                            lemma_digits_val_monotone(d, i - start + 1);
                        }
                    }
                    return None;
                }
            },
        }
        i = i + 1;
    }
    proof {
        assert(d.take(len - start as int) =~= d);
    }
    Some(acc as u16)
}

/// Reads a port number: the token must be a number between 1 and 65535.
pub fn validate_port(s: &str) -> (r: Result<u16, String>)
    ensures
        parses_as_u16(s@) && port_of(s@) > 0 ==> (r matches Ok(p) && p == port_of(s@)),
        parses_as_u16(s@) && port_of(s@) == 0 ==> (r matches Err(e) && e@
            == "Port number must be greater than 0"@),
        !parses_as_u16(s@) ==> (r matches Err(e) && e@
            == "Port must be a valid number between 1 and 65535"@),
        r matches Ok(p) ==> (valid_port(s@) && p == port_of(s@)),
{
    let len = s.unicode_len();
    let start: usize = if len > 0 && s.get_char(0) == '+' {
        1
    } else {
        0
    };
    proof {
        assert(numeric_part(s@) =~= s@.subrange(start as int, len as int));
    }
    match parse_port_digits(s, start) {
        Some(p) => {
            if p == 0 {
                Err("Port number must be greater than 0".to_owned())
            } else {
                Ok(p)
            }
        },
        None => Err("Port must be a valid number between 1 and 65535".to_owned()),
    }
}

/// A token that names a usable port: a number between 1 and 65535.
pub open spec fn valid_port(s: Seq<char>) -> bool {
    parses_as_u16(s) && port_of(s) > 0
}

/// The parsed command line: an optional port and an optional file to serve.
pub struct Args {
    pub port: Option<u16>,
    pub file: Option<String>,
}

/// Mathematical model of a parsed command line.
#[verifier::ext_equal]
pub ghost struct ArgsModel {
    pub port: Option<u16>,
    pub file: Option<Seq<char>>,
}

impl View for Args {
    type V = ArgsModel;

    open spec fn view(&self) -> ArgsModel {
        ArgsModel { port: self.port, file: self.file.deep_view() }
    }
}

/// The argument grammar, one token at a time: `--port`/`-p` takes a valid
/// port as the next token, anything else starting with `-` is unknown, and
/// at most one positional file is accepted; a repeated option is rejected.
pub open spec fn parse_args_from(args: Seq<Seq<char>>, i: int, acc: ArgsModel) -> Option<ArgsModel>
    decreases args.len() - i,
{
    if i < 0 || i >= args.len() {
        Some(acc)
    } else {
        let a = args[i];
        if a == "--port"@ || a == "-p"@ {
            if i + 1 >= args.len() {
                None
            } else if !valid_port(args[i + 1]) {
                None
            } else if acc.port is Some {
                None
            } else {
                parse_args_from(
                    args,
                    i + 2,
                    ArgsModel { port: Some(digits_val(numeric_part(args[i + 1])) as u16), ..acc },
                )
            }
        } else if a.len() > 0 && a[0] == '-' {
            None
        } else if acc.file is Some {
            None
        } else {
            parse_args_from(args, i + 1, ArgsModel { file: Some(a), ..acc })
        }
    }
}

/// What a whole command line parses to: the first token is the program
/// name.
pub open spec fn spec_parse_args(args: Seq<Seq<char>>) -> Option<ArgsModel> {
    parse_args_from(args, 1, ArgsModel { port: None, file: None })
}

impl Args {
    /// Parses a full argument list (program name first). Exactly the
    /// command lines of `spec_parse_args` are accepted; anything else is an
    /// error carrying a diagnostic.
    pub fn try_parse_from(args: &Vec<String>) -> (r: Result<Args, String>)
        ensures
            r matches Ok(a) ==> spec_parse_args(args.deep_view()) == Some(a@),
            r is Err ==> spec_parse_args(args.deep_view()) is None,
    {
        let ghost av = args.deep_view();
        let n = args.len();
        let mut port: Option<u16> = None;
        let mut file: Option<String> = None;
        let mut i: usize = 1;
        while i < n
            invariant
                n == args@.len(),
                av == args.deep_view(),
                i >= 1,
                spec_parse_args(av) == parse_args_from(
                    av,
                    i as int,
                    ArgsModel { port: port, file: file.deep_view() },
                ),
            decreases n - i,
        {
            proof {
                assert(av[i as int] == args@[i as int]@);
            }
            let a = &args[i];
            if str_eq(a.as_str(), "--port") || str_eq(a.as_str(), "-p") {
                if i + 1 >= n {
                    return Err("a value is required for '--port'".to_owned());
                }
                proof {
                    assert(av[i + 1] == args@[i + 1]@);
                }
                match validate_port(args[i + 1].as_str()) {
                    Ok(p) => {
                        if port.is_some() {
                            return Err("the argument '--port' cannot be used multiple times".to_owned());
                        }
                        proof {
                            let acc0 = ArgsModel { port: port, file: file.deep_view() };
                            let acc1 = ArgsModel {
                                port: Some(digits_val(numeric_part(av[i + 1])) as u16),
                                ..acc0
                            };
                            assert(parse_args_from(av, i as int, acc0) == parse_args_from(
                                av,
                                i + 2,
                                acc1,
                            ));
                            assert(acc1 == (ArgsModel { port: Some(p), file: file.deep_view() }));
                        }
                        port = Some(p);
                        i = i + 2;
                    },
                    Err(e) => {
                        return Err(e);
                    },
                }
            } else if a.as_str().unicode_len() > 0 && a.as_str().get_char(0) == '-' {
                return Err("unexpected argument".to_owned());
            } else {
                if file.is_some() {
                    return Err("unexpected extra positional argument".to_owned());
                }
                proof {
                    let acc0 = ArgsModel { port: port, file: file.deep_view() };
                    assert(parse_args_from(av, i as int, acc0) == parse_args_from(
                        av,
                        i + 1,
                        ArgsModel { file: Some(av[i as int]), ..acc0 },
                    ));
                }
                file = Some(a.clone());
                i = i + 1;
            }
        }
        Ok(Args { port, file })
    }
}

} // verus!
