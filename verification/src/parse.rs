//! A verified parser for the JSON text of the bookmark store.
//!
//! Recursive descent over bytes.  Strings take the standard escapes, with
//! `\u` escapes accepted for ASCII code points only; any other byte in a
//! string stands for itself, so UTF-8 text passes through untouched.
//! Numbers are plain integers within signed 64-bit range.  Every function
//! carries a call budget that falls by one at each inner call; the
//! top-level entry grants a budget no well-formed input can exhaust, and
//! the executable code and its specification spend it identically.

use vstd::prelude::*;

use crate::codec::ParseError;
use crate::json::Json;
use crate::json::JsonView;
use crate::json::json_elems_view;
use crate::json::json_fields_view;
use crate::json::json_view;

verus! {

/// Whether a byte is JSON whitespace.
pub open spec fn spec_is_ws(b: u8) -> bool {
    b == 32 || b == 9 || b == 10 || b == 13
}

/// The first position at or after `i` that holds no whitespace.
pub open spec fn spec_skip_ws(s: Seq<u8>, i: int) -> int
    decreases s.len() - i,
{
    if 0 <= i < s.len() && spec_is_ws(s[i]) {
        spec_skip_ws(s, i + 1)
    } else {
        i
    }
}

/// Whether a byte is a decimal digit.
pub open spec fn spec_is_digit(b: u8) -> bool {
    48 <= b <= 57
}

/// The digit run starting at `i`: its value bounded by `limit`, and the
/// position after it.  A run that would pass `limit` is refused.
pub open spec fn spec_parse_digits(s: Seq<u8>, i: int, acc: int, limit: int, n: nat) -> Result<
    (int, int),
    ParseError,
>
    decreases n,
{
    if n == 0 {
        Result::Err(ParseError::UnexpectedEnd)
    } else if 0 <= i < s.len() && spec_is_digit(s[i]) {
        let d = s[i] - 48;
        if acc > (limit - d) / 10 {
            Result::Err(ParseError::BadNumber)
        } else {
            spec_parse_digits(s, i + 1, acc * 10 + d, limit, (n - 1) as nat)
        }
    } else {
        Result::Ok((acc, i))
    }
}

/// An integer: an optional minus sign, then at least one digit, the whole
/// within signed 64-bit range.
pub open spec fn spec_parse_int(s: Seq<u8>, i: int, n: nat) -> Result<(JsonView, int), ParseError>
    decreases n,
{
    if n == 0 {
        Result::Err(ParseError::UnexpectedEnd)
    } else {
        let neg = 0 <= i < s.len() && s[i] == 45;
        let start = if neg {
            i + 1
        } else {
            i
        };
        if !(0 <= start < s.len() && spec_is_digit(s[start])) {
            Result::Err(ParseError::UnexpectedByte)
        } else {
            let limit = if neg {
                0x8000_0000_0000_0000int
            } else {
                0x7fff_ffff_ffff_ffffint
            };
            match spec_parse_digits(s, start, 0, limit, (n - 1) as nat) {
                Result::Err(e) => Result::Err(e),
                Result::Ok((m, p)) => Result::Ok(
                    (JsonView::Int(if neg {
                        -m
                    } else {
                        m
                    }), p),
                ),
            }
        }
    }
}

/// The value of an escape named by one letter, if there is one.
pub open spec fn spec_escape_char(b: u8) -> Option<u8> {
    if b == 34 {
        Option::Some(34u8)
    } else if b == 92 {
        Option::Some(92u8)
    } else if b == 47 {
        Option::Some(47u8)
    } else if b == 98 {
        Option::Some(8u8)
    } else if b == 102 {
        Option::Some(12u8)
    } else if b == 110 {
        Option::Some(10u8)
    } else if b == 114 {
        Option::Some(13u8)
    } else if b == 116 {
        Option::Some(9u8)
    } else {
        Option::None
    }
}

/// The value of a hexadecimal digit, if the byte is one.
pub open spec fn spec_hex_val(b: u8) -> Option<u8> {
    if 48 <= b <= 57 {
        Option::Some((b - 48) as u8)
    } else if 97 <= b <= 102 {
        Option::Some((b - 87) as u8)
    } else if 65 <= b <= 70 {
        Option::Some((b - 55) as u8)
    } else {
        Option::None
    }
}

/// The body of a string from `i` to its closing quote: the bytes it
/// stands for, and the position after the quote.
pub open spec fn spec_parse_string(s: Seq<u8>, i: int, n: nat) -> Result<
    (Seq<u8>, int),
    ParseError,
>
    decreases n,
{
    if n == 0 {
        Result::Err(ParseError::UnexpectedEnd)
    } else if !(0 <= i < s.len()) {
        Result::Err(ParseError::UnexpectedEnd)
    } else if s[i] == 34 {
        Result::Ok((Seq::empty(), i + 1))
    } else if s[i] == 92 {
        if !(i + 1 < s.len()) {
            Result::Err(ParseError::UnexpectedEnd)
        } else if s[i + 1] == 117 {
            if !(i + 5 < s.len()) {
                Result::Err(ParseError::UnexpectedEnd)
            } else {
                match (spec_hex_val(s[i + 2]), spec_hex_val(s[i + 3])) {
                    (Option::Some(h2), Option::Some(h3)) => match (
                        spec_hex_val(s[i + 4]),
                        spec_hex_val(s[i + 5]),
                    ) {
                        (Option::Some(h4), Option::Some(h5)) => {
                            if h2 == 0 && h3 == 0 && h4 < 8 {
                                let b = (h4 * 16 + h5) as u8;
                                match spec_parse_string(s, i + 6, (n - 1) as nat) {
                                    Result::Err(e) => Result::Err(e),
                                    Result::Ok((rest, p)) => Result::Ok((seq![b] + rest, p)),
                                }
                            } else {
                                Result::Err(ParseError::BadEscape)
                            }
                        },
                        _ => Result::Err(ParseError::BadEscape),
                    },
                    _ => Result::Err(ParseError::BadEscape),
                }
            }
        } else {
            match spec_escape_char(s[i + 1]) {
                Option::None => Result::Err(ParseError::BadEscape),
                Option::Some(b) => match spec_parse_string(s, i + 2, (n - 1) as nat) {
                    Result::Err(e) => Result::Err(e),
                    Result::Ok((rest, p)) => Result::Ok((seq![b] + rest, p)),
                },
            }
        }
    } else {
        match spec_parse_string(s, i + 1, (n - 1) as nat) {
            Result::Err(e) => Result::Err(e),
            Result::Ok((rest, p)) => Result::Ok((seq![s[i]] + rest, p)),
        }
    }
}

/// A whole value starting at `i`, whitespace first.
pub open spec fn spec_parse_value(s: Seq<u8>, i: int, n: nat) -> Result<
    (JsonView, int),
    ParseError,
>
    decreases n,
{
    if n == 0 {
        Result::Err(ParseError::UnexpectedEnd)
    } else {
        let j = spec_skip_ws(s, i);
        if !(0 <= j < s.len()) {
            Result::Err(ParseError::UnexpectedEnd)
        } else if s[j] == 123 {
            match spec_parse_members(s, j + 1, (n - 1) as nat) {
                Result::Err(e) => Result::Err(e),
                Result::Ok((fs, p)) => Result::Ok((JsonView::Obj(fs), p)),
            }
        } else if s[j] == 91 {
            match spec_parse_elems(s, j + 1, (n - 1) as nat) {
                Result::Err(e) => Result::Err(e),
                Result::Ok((es, p)) => Result::Ok((JsonView::Arr(es), p)),
            }
        } else if s[j] == 34 {
            match spec_parse_string(s, j + 1, (n - 1) as nat) {
                Result::Err(e) => Result::Err(e),
                Result::Ok((body, p)) => Result::Ok((JsonView::Str(body), p)),
            }
        } else if s[j] == 110 {
            if j + 4 <= s.len() && s[j + 1] == 117 && s[j + 2] == 108 && s[j + 3] == 108 {
                Result::Ok((JsonView::Null, j + 4))
            } else {
                Result::Err(ParseError::UnexpectedByte)
            }
        } else if s[j] == 116 {
            if j + 4 <= s.len() && s[j + 1] == 114 && s[j + 2] == 117 && s[j + 3] == 101 {
                Result::Ok((JsonView::Bool(true), j + 4))
            } else {
                Result::Err(ParseError::UnexpectedByte)
            }
        } else if s[j] == 102 {
            if j + 5 <= s.len() && s[j + 1] == 97 && s[j + 2] == 108 && s[j + 3] == 115 && s[j + 4]
                == 101 {
                Result::Ok((JsonView::Bool(false), j + 5))
            } else {
                Result::Err(ParseError::UnexpectedByte)
            }
        } else if s[j] == 45 || spec_is_digit(s[j]) {
            spec_parse_int(s, j, (n - 1) as nat)
        } else {
            Result::Err(ParseError::UnexpectedByte)
        }
    }
}

/// The elements of an array whose `[` is already behind `i`.
pub open spec fn spec_parse_elems(s: Seq<u8>, i: int, n: nat) -> Result<
    (Seq<JsonView>, int),
    ParseError,
>
    decreases n,
{
    if n == 0 {
        Result::Err(ParseError::UnexpectedEnd)
    } else {
        let j = spec_skip_ws(s, i);
        if !(0 <= j < s.len()) {
            Result::Err(ParseError::UnexpectedEnd)
        } else if s[j] == 93 {
            Result::Ok((Seq::empty(), j + 1))
        } else {
            spec_parse_items(s, j, (n - 1) as nat)
        }
    }
}

/// One or more comma-separated array elements, then `]`.
pub open spec fn spec_parse_items(s: Seq<u8>, i: int, n: nat) -> Result<
    (Seq<JsonView>, int),
    ParseError,
>
    decreases n,
{
    if n == 0 {
        Result::Err(ParseError::UnexpectedEnd)
    } else {
        match spec_parse_value(s, i, (n - 1) as nat) {
            Result::Err(e) => Result::Err(e),
            Result::Ok((v, p)) => {
                let q = spec_skip_ws(s, p);
                if !(0 <= q < s.len()) {
                    Result::Err(ParseError::UnexpectedEnd)
                } else if s[q] == 44 {
                    match spec_parse_items(s, q + 1, (n - 1) as nat) {
                        Result::Err(e) => Result::Err(e),
                        Result::Ok((rest, p2)) => Result::Ok((seq![v] + rest, p2)),
                    }
                } else if s[q] == 93 {
                    Result::Ok((seq![v], q + 1))
                } else {
                    Result::Err(ParseError::UnexpectedByte)
                }
            },
        }
    }
}

/// The fields of an object whose `{` is already behind `i`.
pub open spec fn spec_parse_members(s: Seq<u8>, i: int, n: nat) -> Result<
    (Seq<(Seq<u8>, JsonView)>, int),
    ParseError,
>
    decreases n,
{
    if n == 0 {
        Result::Err(ParseError::UnexpectedEnd)
    } else {
        let j = spec_skip_ws(s, i);
        if !(0 <= j < s.len()) {
            Result::Err(ParseError::UnexpectedEnd)
        } else if s[j] == 125 {
            Result::Ok((Seq::empty(), j + 1))
        } else {
            spec_parse_fields(s, j, (n - 1) as nat)
        }
    }
}

/// One or more comma-separated `"key": value` fields, then `}`.
pub open spec fn spec_parse_fields(s: Seq<u8>, i: int, n: nat) -> Result<
    (Seq<(Seq<u8>, JsonView)>, int),
    ParseError,
>
    decreases n,
{
    if n == 0 {
        Result::Err(ParseError::UnexpectedEnd)
    } else {
        let j = spec_skip_ws(s, i);
        if !(0 <= j < s.len()) {
            Result::Err(ParseError::UnexpectedEnd)
        } else if s[j] != 34 {
            Result::Err(ParseError::UnexpectedByte)
        } else {
            match spec_parse_string(s, j + 1, (n - 1) as nat) {
                Result::Err(e) => Result::Err(e),
                Result::Ok((key, p)) => {
                    let k = spec_skip_ws(s, p);
                    if !(0 <= k < s.len()) {
                        Result::Err(ParseError::UnexpectedEnd)
                    } else if s[k] != 58 {
                        Result::Err(ParseError::UnexpectedByte)
                    } else {
                        match spec_parse_value(s, k + 1, (n - 1) as nat) {
                            Result::Err(e) => Result::Err(e),
                            Result::Ok((v, p2)) => {
                                let q = spec_skip_ws(s, p2);
                                if !(0 <= q < s.len()) {
                                    Result::Err(ParseError::UnexpectedEnd)
                                } else if s[q] == 44 {
                                    match spec_parse_fields(s, q + 1, (n - 1) as nat) {
                                        Result::Err(e) => Result::Err(e),
                                        Result::Ok((rest, p3)) => Result::Ok(
                                            (seq![(key, v)] + rest, p3),
                                        ),
                                    }
                                } else if s[q] == 125 {
                                    Result::Ok((seq![(key, v)], q + 1))
                                } else {
                                    Result::Err(ParseError::UnexpectedByte)
                                }
                            },
                        }
                    }
                },
            }
        }
    }
}

/// The call budget the top-level entry grants: ample for any input.
pub open spec fn spec_parse_fuel(s: Seq<u8>) -> nat {
    (2 * s.len() + 2) as nat
}

/// What parsing a whole text yields: its one value, with nothing but
/// whitespace after it.
pub open spec fn spec_parse_json(s: Seq<u8>) -> Result<JsonView, ParseError> {
    match spec_parse_value(s, 0, spec_parse_fuel(s)) {
        Result::Err(e) => Result::Err(e),
        Result::Ok((v, p)) => if spec_skip_ws(s, p) == s.len() {
            Result::Ok(v)
        } else {
            Result::Err(ParseError::TrailingData)
        },
    }
}

/// A value-and-position result, viewed.
pub open spec fn val_res_view(r: Result<(Json, usize), ParseError>) -> Result<
    (JsonView, int),
    ParseError,
> {
    match r {
        Result::Ok((v, p)) => Result::Ok((json_view(v), p as int)),
        Result::Err(e) => Result::Err(e),
    }
}

/// A string-and-position result, viewed.
pub open spec fn str_res_view(r: Result<(Vec<u8>, usize), ParseError>) -> Result<
    (Seq<u8>, int),
    ParseError,
> {
    match r {
        Result::Ok((v, p)) => Result::Ok((v@, p as int)),
        Result::Err(e) => Result::Err(e),
    }
}

/// An elements-and-position result, viewed.
pub open spec fn elems_res_view(r: Result<(Vec<Json>, usize), ParseError>) -> Result<
    (Seq<JsonView>, int),
    ParseError,
> {
    match r {
        Result::Ok((v, p)) => Result::Ok((json_elems_view(v@), p as int)),
        Result::Err(e) => Result::Err(e),
    }
}

/// A fields-and-position result, viewed.
pub open spec fn fields_res_view(r: Result<(Vec<(Vec<u8>, Json)>, usize), ParseError>) -> Result<
    (Seq<(Seq<u8>, JsonView)>, int),
    ParseError,
> {
    match r {
        Result::Ok((v, p)) => Result::Ok((json_fields_view(v@), p as int)),
        Result::Err(e) => Result::Err(e),
    }
}

/// A document result, viewed.
pub open spec fn json_res_view(r: Result<Json, ParseError>) -> Result<JsonView, ParseError> {
    match r {
        Result::Ok(v) => Result::Ok(json_view(v)),
        Result::Err(e) => Result::Err(e),
    }
}

fn skip_ws(s: &[u8], i: usize) -> (r: usize)
    requires
        i <= s@.len(),
    ensures
        r as int == spec_skip_ws(s@, i as int),
        i <= r <= s@.len(),
    decreases s@.len() - i,
{
    if i < s.len() && (s[i] == 32 || s[i] == 9 || s[i] == 10 || s[i] == 13) {
        skip_ws(s, i + 1)
    } else {
        i
    }
}

fn parse_digits(s: &[u8], i: usize, acc: u64, limit: u64, fuel: usize) -> (r: Result<
    (u64, usize),
    ParseError,
>)
    requires
        i <= s@.len(),
        9 <= limit,
        acc <= limit,
    ensures
        (match r {
            Result::Ok((m, p)) => {
                &&& spec_parse_digits(s@, i as int, acc as int, limit as int, fuel as nat)
                    == Result::Ok::<(int, int), ParseError>((m as int, p as int))
                &&& m <= limit
                &&& i <= p <= s@.len()
            },
            Result::Err(e) => spec_parse_digits(s@, i as int, acc as int, limit as int, fuel as nat)
                == Result::Err::<(int, int), ParseError>(e),
        }),
    decreases fuel,
{
    if fuel == 0 {
        Result::Err(ParseError::UnexpectedEnd)
    } else if i < s.len() && 48 <= s[i] && s[i] <= 57 {
        let d = s[i] - 48;
        if acc > (limit - d as u64) / 10 {
            Result::Err(ParseError::BadNumber)
        } else {
            assert(acc * 10 + d <= limit) by {
                assert(acc <= (limit - d) / 10);
                assert(((limit - d as u64) / 10) * 10 <= limit - d) by (nonlinear_arith)
                    requires
                        limit >= d,
                ;
                assert(acc * 10 <= ((limit - d as u64) / 10) * 10) by (nonlinear_arith)
                    requires
                        acc <= (limit - d as u64) / 10,
                ;
            }
            parse_digits(s, i + 1, acc * 10 + d as u64, limit, fuel - 1)
        }
    } else {
        Result::Ok((acc, i))
    }
}

fn parse_int(s: &[u8], i: usize, fuel: usize) -> (r: Result<(Json, usize), ParseError>)
    requires
        i <= s@.len(),
    ensures
        val_res_view(r) == spec_parse_int(s@, i as int, fuel as nat),
        r matches Result::Ok((v, p)) ==> i <= p <= s@.len(),
    decreases fuel,
{
    if fuel == 0 {
        Result::Err(ParseError::UnexpectedEnd)
    } else {
        let neg = i < s.len() && s[i] == 45;
        let start = if neg {
            i + 1
        } else {
            i
        };
        if !(start < s.len() && 48 <= s[start] && s[start] <= 57) {
            Result::Err(ParseError::UnexpectedByte)
        } else {
            let limit: u64 = if neg {
                0x8000_0000_0000_0000
            } else {
                0x7fff_ffff_ffff_ffff
            };
            match parse_digits(s, start, 0, limit, fuel - 1) {
                Result::Err(e) => Result::Err(e),
                Result::Ok((m, p)) => {
                    let v: i64 = if neg {
                        if m == 0x8000_0000_0000_0000 {
                            i64::MIN
                        } else {
                            -(m as i64)
                        }
                    } else {
                        m as i64
                    };
                    Result::Ok((Json::Int(v), p))
                },
            }
        }
    }
}

fn hex_val(b: u8) -> (r: Option<u8>)
    ensures
        r == spec_hex_val(b),
{
    if 48 <= b && b <= 57 {
        Option::Some(b - 48)
    } else if 97 <= b && b <= 102 {
        Option::Some(b - 87)
    } else if 65 <= b && b <= 70 {
        Option::Some(b - 55)
    } else {
        Option::None
    }
}

fn parse_string(s: &[u8], i: usize, fuel: usize) -> (r: Result<(Vec<u8>, usize), ParseError>)
    requires
        i <= s@.len(),
    ensures
        str_res_view(r) == spec_parse_string(s@, i as int, fuel as nat),
        r matches Result::Ok((v, p)) ==> i <= p <= s@.len(),
    decreases fuel,
{
    if fuel == 0 {
        Result::Err(ParseError::UnexpectedEnd)
    } else if !(i < s.len()) {
        Result::Err(ParseError::UnexpectedEnd)
    } else if s[i] == 34 {
        Result::Ok((Vec::new(), i + 1))
    } else if s[i] == 92 {
        if !(i + 1 < s.len()) {
            Result::Err(ParseError::UnexpectedEnd)
        } else if s[i + 1] == 117 {
            if !(s.len() - i > 5) {
                Result::Err(ParseError::UnexpectedEnd)
            } else {
                let h2 = hex_val(s[i + 2]);
                let h3 = hex_val(s[i + 3]);
                let h4 = hex_val(s[i + 4]);
                let h5 = hex_val(s[i + 5]);
                match (h2, h3) {
                    (Option::Some(h2), Option::Some(h3)) => match (h4, h5) {
                        (Option::Some(h4), Option::Some(h5)) => {
                            if h2 == 0 && h3 == 0 && h4 < 8 {
                                let b = h4 * 16 + h5;
                                match parse_string(s, i + 6, fuel - 1) {
                                    Result::Err(e) => Result::Err(e),
                                    Result::Ok((mut rest, p)) => {
                                        let ghost r0 = rest@;
                                        rest.insert(0, b);
                                        proof {
                                            assert(rest@ =~= seq![b] + r0);
                                        }
                                        Result::Ok((rest, p))
                                    },
                                }
                            } else {
                                Result::Err(ParseError::BadEscape)
                            }
                        },
                        _ => Result::Err(ParseError::BadEscape),
                    },
                    _ => Result::Err(ParseError::BadEscape),
                }
            }
        } else {
            let e = s[i + 1];
            let b: u8 = if e == 34 {
                34
            } else if e == 92 {
                92
            } else if e == 47 {
                47
            } else if e == 98 {
                8
            } else if e == 102 {
                12
            } else if e == 110 {
                10
            } else if e == 114 {
                13
            } else if e == 116 {
                9
            } else {
                return Result::Err(ParseError::BadEscape);
            };
            match parse_string(s, i + 2, fuel - 1) {
                Result::Err(e) => Result::Err(e),
                Result::Ok((mut rest, p)) => {
                    let ghost r0 = rest@;
                    rest.insert(0, b);
                    proof {
                        assert(rest@ =~= seq![b] + r0);
                    }
                    Result::Ok((rest, p))
                },
            }
        }
    } else {
        let b = s[i];
        match parse_string(s, i + 1, fuel - 1) {
            Result::Err(e) => Result::Err(e),
            Result::Ok((mut rest, p)) => {
                let ghost r0 = rest@;
                rest.insert(0, b);
                proof {
                    assert(rest@ =~= seq![b] + r0);
                }
                Result::Ok((rest, p))
            },
        }
    }
}

fn parse_value(s: &[u8], i: usize, fuel: usize) -> (r: Result<(Json, usize), ParseError>)
    requires
        i <= s@.len(),
    ensures
        val_res_view(r) == spec_parse_value(s@, i as int, fuel as nat),
        r matches Result::Ok((v, p)) ==> i <= p <= s@.len(),
    decreases fuel,
{
    if fuel == 0 {
        Result::Err(ParseError::UnexpectedEnd)
    } else {
        let j = skip_ws(s, i);
        if !(j < s.len()) {
            Result::Err(ParseError::UnexpectedEnd)
        } else if s[j] == 123 {
            match parse_members(s, j + 1, fuel - 1) {
                Result::Err(e) => Result::Err(e),
                Result::Ok((fs, p)) => Result::Ok((Json::Obj(fs), p)),
            }
        } else if s[j] == 91 {
            match parse_elems(s, j + 1, fuel - 1) {
                Result::Err(e) => Result::Err(e),
                Result::Ok((es, p)) => Result::Ok((Json::Arr(es), p)),
            }
        } else if s[j] == 34 {
            match parse_string(s, j + 1, fuel - 1) {
                Result::Err(e) => Result::Err(e),
                Result::Ok((body, p)) => Result::Ok((Json::Str(body), p)),
            }
        } else if s[j] == 110 {
            if s.len() - j >= 4 && s[j + 1] == 117 && s[j + 2] == 108 && s[j + 3] == 108 {
                Result::Ok((Json::Null, j + 4))
            } else {
                Result::Err(ParseError::UnexpectedByte)
            }
        } else if s[j] == 116 {
            if s.len() - j >= 4 && s[j + 1] == 114 && s[j + 2] == 117 && s[j + 3] == 101 {
                Result::Ok((Json::Bool(true), j + 4))
            } else {
                Result::Err(ParseError::UnexpectedByte)
            }
        } else if s[j] == 102 {
            if s.len() - j >= 5 && s[j + 1] == 97 && s[j + 2] == 108 && s[j + 3] == 115 && s[j + 4]
                == 101 {
                Result::Ok((Json::Bool(false), j + 5))
            } else {
                Result::Err(ParseError::UnexpectedByte)
            }
        } else if s[j] == 45 || (48 <= s[j] && s[j] <= 57) {
            parse_int(s, j, fuel - 1)
        } else {
            Result::Err(ParseError::UnexpectedByte)
        }
    }
}

fn parse_elems(s: &[u8], i: usize, fuel: usize) -> (r: Result<(Vec<Json>, usize), ParseError>)
    requires
        i <= s@.len(),
    ensures
        elems_res_view(r) == spec_parse_elems(s@, i as int, fuel as nat),
        r matches Result::Ok((v, p)) ==> i <= p <= s@.len(),
    decreases fuel,
{
    if fuel == 0 {
        Result::Err(ParseError::UnexpectedEnd)
    } else {
        let j = skip_ws(s, i);
        if !(j < s.len()) {
            Result::Err(ParseError::UnexpectedEnd)
        } else if s[j] == 93 {
            proof {
                assert(json_elems_view(Seq::<Json>::empty()) =~= Seq::<JsonView>::empty());
            }
            Result::Ok((Vec::new(), j + 1))
        } else {
            parse_items(s, j, fuel - 1)
        }
    }
}

fn parse_items(s: &[u8], i: usize, fuel: usize) -> (r: Result<(Vec<Json>, usize), ParseError>)
    requires
        i <= s@.len(),
    ensures
        elems_res_view(r) == spec_parse_items(s@, i as int, fuel as nat),
        r matches Result::Ok((v, p)) ==> i <= p <= s@.len(),
    decreases fuel,
{
    if fuel == 0 {
        Result::Err(ParseError::UnexpectedEnd)
    } else {
        match parse_value(s, i, fuel - 1) {
            Result::Err(e) => Result::Err(e),
            Result::Ok((v, p)) => {
                let q = skip_ws(s, p);
                if !(q < s.len()) {
                    Result::Err(ParseError::UnexpectedEnd)
                } else if s[q] == 44 {
                    match parse_items(s, q + 1, fuel - 1) {
                        Result::Err(e) => Result::Err(e),
                        Result::Ok((mut rest, p2)) => {
                            let ghost r0 = rest@;
                            rest.insert(0, v);
                            proof {
                                assert(rest@ =~= seq![v] + r0);
                                assert(rest@[0] == v);
                                assert(rest@.subrange(1, rest@.len() as int) =~= r0);
                                assert(json_elems_view(rest@) == seq![json_view(rest@[0])]
                                    + json_elems_view(rest@.subrange(1, rest@.len() as int)));
                            }
                            Result::Ok((rest, p2))
                        },
                    }
                } else if s[q] == 93 {
                    let mut one: Vec<Json> = Vec::new();
                    one.push(v);
                    proof {
                        assert(one@.subrange(1, one@.len() as int) =~= Seq::<Json>::empty());
                        assert(json_elems_view(Seq::<Json>::empty()) =~= Seq::<JsonView>::empty());
                        assert(one@[0] == v);
                        assert(json_elems_view(one@) == seq![json_view(one@[0])] + json_elems_view(
                            one@.subrange(1, one@.len() as int),
                        ));
                        assert(json_elems_view(one@) =~= seq![json_view(v)]);
                    }
                    Result::Ok((one, q + 1))
                } else {
                    Result::Err(ParseError::UnexpectedByte)
                }
            },
        }
    }
}

fn parse_members(s: &[u8], i: usize, fuel: usize) -> (r: Result<
    (Vec<(Vec<u8>, Json)>, usize),
    ParseError,
>)
    requires
        i <= s@.len(),
    ensures
        fields_res_view(r) == spec_parse_members(s@, i as int, fuel as nat),
        r matches Result::Ok((v, p)) ==> i <= p <= s@.len(),
    decreases fuel,
{
    if fuel == 0 {
        Result::Err(ParseError::UnexpectedEnd)
    } else {
        let j = skip_ws(s, i);
        if !(j < s.len()) {
            Result::Err(ParseError::UnexpectedEnd)
        } else if s[j] == 125 {
            proof {
                assert(json_fields_view(Seq::<(Vec<u8>, Json)>::empty()) =~= Seq::<
                    (Seq<u8>, JsonView),
                >::empty());
            }
            Result::Ok((Vec::new(), j + 1))
        } else {
            parse_fields(s, j, fuel - 1)
        }
    }
}

fn parse_fields(s: &[u8], i: usize, fuel: usize) -> (r: Result<
    (Vec<(Vec<u8>, Json)>, usize),
    ParseError,
>)
    requires
        i <= s@.len(),
    ensures
        fields_res_view(r) == spec_parse_fields(s@, i as int, fuel as nat),
        r matches Result::Ok((v, p)) ==> i <= p <= s@.len(),
    decreases fuel,
{
    if fuel == 0 {
        Result::Err(ParseError::UnexpectedEnd)
    } else {
        let j = skip_ws(s, i);
        if !(j < s.len()) {
            Result::Err(ParseError::UnexpectedEnd)
        } else if s[j] != 34 {
            Result::Err(ParseError::UnexpectedByte)
        } else {
            match parse_string(s, j + 1, fuel - 1) {
                Result::Err(e) => Result::Err(e),
                Result::Ok((key, p)) => {
                    let k = skip_ws(s, p);
                    if !(k < s.len()) {
                        Result::Err(ParseError::UnexpectedEnd)
                    } else if s[k] != 58 {
                        Result::Err(ParseError::UnexpectedByte)
                    } else {
                        match parse_value(s, k + 1, fuel - 1) {
                            Result::Err(e) => Result::Err(e),
                            Result::Ok((v, p2)) => {
                                let q = skip_ws(s, p2);
                                if !(q < s.len()) {
                                    Result::Err(ParseError::UnexpectedEnd)
                                } else if s[q] == 44 {
                                    match parse_fields(s, q + 1, fuel - 1) {
                                        Result::Err(e) => Result::Err(e),
                                        Result::Ok((mut rest, p3)) => {
                                            let ghost r0 = rest@;
                                            let ghost kv = (key@, json_view(v));
                                            rest.insert(0, (key, v));
                                            proof {
                                                assert(rest@ =~= seq![(key, v)] + r0);
                                                assert(rest@[0] == (key, v));
                                                assert(rest@.subrange(1, rest@.len() as int)
                                                    =~= r0);
                                                assert(json_fields_view(rest@) == seq![
                                                    (rest@[0].0@, json_view(rest@[0].1)),
                                                ]
                                                    + json_fields_view(
                                                    rest@.subrange(1, rest@.len() as int),
                                                ));
                                                assert(json_fields_view(rest@) =~= seq![kv]
                                                    + json_fields_view(r0));
                                            }
                                            Result::Ok((rest, p3))
                                        },
                                    }
                                } else if s[q] == 125 {
                                    let mut one: Vec<(Vec<u8>, Json)> = Vec::new();
                                    one.push((key, v));
                                    proof {
                                        assert(one@.subrange(1, one@.len() as int) =~= Seq::<
                                            (Vec<u8>, Json),
                                        >::empty());
                                        assert(json_fields_view(
                                            Seq::<(Vec<u8>, Json)>::empty(),
                                        ) =~= Seq::<(Seq<u8>, JsonView)>::empty());
                                        assert(one@[0] == (key, v));
                                        assert(json_fields_view(one@) == seq![
                                            (one@[0].0@, json_view(one@[0].1)),
                                        ]
                                            + json_fields_view(
                                            one@.subrange(1, one@.len() as int),
                                        ));
                                        assert(json_fields_view(one@) =~= seq![(key@, json_view(v))]);
                                    }
                                    Result::Ok((one, q + 1))
                                } else {
                                    Result::Err(ParseError::UnexpectedByte)
                                }
                            },
                        }
                    }
                },
            }
        }
    }
}

/// Parse a whole JSON text: its one value, with nothing but whitespace
/// after it, exactly as `spec_parse_json` states.
pub fn parse_json(s: &[u8]) -> (r: Result<Json, ParseError>)
    requires
        2 * s@.len() + 2 <= usize::MAX,
    ensures
        json_res_view(r) == spec_parse_json(s@),
{
    let fuel: usize = 2 * s.len() + 2;
    match parse_value(s, 0, fuel) {
        Result::Err(e) => Result::Err(e),
        Result::Ok((v, p)) => {
            let q = skip_ws(s, p);
            if q == s.len() {
                Result::Ok(v)
            } else {
                Result::Err(ParseError::TrailingData)
            }
        },
    }
}

} // verus!
