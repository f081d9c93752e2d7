//! The CGI output head parser: line-oriented parsing of `name: value`
//! header lines up to the blank separator line, and extraction of the
//! `Status` pseudo-header into a numeric status code.

use vstd::prelude::*;

use crate::errors::BridgeError;
use crate::headers::{add_value, lookup, remove_name, Headers, HeadersView};
use crate::text::{find_char, find_first, lemma_find_char, strip_cr, strip_trailing_cr};

verus! {

/// How one header line splits at its first colon: the name before it, the
/// value after it with the conventional single leading space dropped.
/// A line without a colon does not split: the backend broke the CGI
/// contract.
pub open spec fn split_line(line: Seq<char>) -> Option<(Seq<char>, Seq<char>)> {
    let i = find_char(line, ':');
    if i < 0 {
        None
    } else {
        let raw = line.subrange(i + 1, line.len() as int);
        let value = if raw.len() > 0 && raw[0] == ' ' {
            raw.drop_first()
        } else {
            raw
        };
        Some((line.subrange(0, i), value))
    }
}

/// Reads one line of the head block into the accumulating header map.
///
/// `Ok(true)` marks the blank separator line (empty, or a lone carriage
/// return): the head is complete and the map is unchanged. `Ok(false)`
/// records one `name: value` pair. A non-blank line without a colon fails
/// with `ResponseParseError`.
pub fn feed_header_line(headers: &mut Headers, line: &str) -> (r: Result<bool, BridgeError>)
    requires
        old(headers).wf(),
    ensures
        final(headers).wf(),
        ({
            let l = strip_cr(line@);
            match split_line(l) {
                Some((name, value)) => {
                    &&& r == Ok::<bool, BridgeError>(false)
                    &&& final(headers)@ == add_value(old(headers)@, name, value)
                },
                None => {
                    &&& final(headers)@ == old(headers)@
                    &&& if l.len() == 0 {
                        r == Ok::<bool, BridgeError>(true)
                    } else {
                        r == Err::<bool, BridgeError>(BridgeError::ResponseParseError)
                    }
                },
            }
        }),
{
    let stripped = strip_trailing_cr(line);
    if stripped.is_empty() {
        proof {
            lemma_find_char(strip_cr(line@), ':');
        }
        return Ok(true);
    }
    let n: usize = stripped.unicode_len();
    match find_first(stripped, ':') {
        None => Err(BridgeError::ResponseParseError),
        Some(i) => {
            proof {
                lemma_find_char(stripped@, ':');
            }
            let name = stripped.substring_char(0, i);
            let raw = stripped.substring_char(i + 1, n);
            let value = if raw.unicode_len() > 0 && raw.get_char(0) == ' ' {
                raw.substring_char(1, raw.unicode_len())
            } else {
                raw
            };
            proof {
                let l = stripped@;
                let sr = l.subrange(i + 1, l.len() as int);
                if sr.len() > 0 && sr[0] == ' ' {
                    assert(value@ =~= sr.drop_first());
                }
            }
            headers.add(name.to_owned(), value.to_owned());
            Ok(false)
        }
    }
}

/// The outcome of reading a head block starting from the accumulated map
/// `hs`: the final map and how many lines were consumed (the blank separator
/// included, when one is found before the lines run out), or nothing when a
/// malformed line stops the parse.
pub open spec fn parse_block(hs: HeadersView, lines: Seq<Seq<char>>) -> Option<(HeadersView, int)>
    decreases lines.len(),
{
    if lines.len() == 0 {
        Some((hs, 0))
    } else {
        let l = strip_cr(lines[0]);
        match split_line(l) {
            Some((name, value)) => match parse_block(
                add_value(hs, name, value),
                lines.drop_first(),
            ) {
                Some((h, n)) => Some((h, n + 1)),
                None => None,
            },
            None => if l.len() == 0 {
                Some((hs, 1))
            } else {
                None
            },
        }
    }
}

/// Parses a whole head block from its lines: header lines accumulate until
/// the blank separator (or until the lines run out), and the count of
/// consumed lines marks where the body begins. The first non-blank line
/// without a colon fails the parse with `ResponseParseError`.
pub fn parse_header_block(lines: &Vec<String>) -> (r: Result<(Headers, usize), BridgeError>)
    ensures
        match r {
            Ok((h, n)) => {
                &&& h.wf()
                &&& n <= lines@.len()
                &&& parse_block(Seq::empty(), lines.deep_view()) == Some((h@, n as int))
            },
            Err(e) => {
                &&& e == BridgeError::ResponseParseError
                &&& parse_block(Seq::empty(), lines.deep_view()) is None
            },
        },
{
    let ghost full: Seq<Seq<char>> = lines.deep_view();
    let mut headers = Headers::new();
    let count: usize = lines.len();
    let mut i: usize = 0;
    proof {
        assert(full.skip(0) =~= full);
    }
    while i < count
        invariant
            i <= count,
            count == lines@.len(),
            full == lines.deep_view(),
            headers.wf(),
            parse_block(Seq::empty(), full) == (match parse_block(headers@, full.skip(i as int)) {
                Some((h, n)) => Some((h, n + i)),
                None => None,
            }),
        decreases count - i,
    {
        let ghost before = headers@;
        let ghost rest = full.skip(i as int);
        proof {
            assert(rest[0] == full[i as int]);
            assert(full[i as int] == lines@[i as int]@);
            assert(rest.drop_first() =~= full.skip(i as int + 1));
        }
        let line = &lines[i];
        match feed_header_line(&mut headers, line.as_str()) {
            Ok(true) => {
                return Ok((headers, i + 1));
            }
            Ok(false) => {}
            Err(e) => {
                return Err(e);
            }
        }
        i = i + 1;
    }
    proof {
        assert(full.skip(count as int) =~= Seq::<Seq<char>>::empty());
    }
    Ok((headers, count))
}

/// Whether every character of `s` is a decimal digit, and there is at least
/// one.
pub open spec fn is_digits(s: Seq<char>) -> bool {
    s.len() > 0 && forall|j: int| 0 <= j < s.len() ==> 48 <= #[trigger] (s[j] as u32) <= 57
}

/// The number the decimal digits of `s` spell.
pub open spec fn digits_val(s: Seq<char>) -> int
    decreases s.len(),
{
    if s.len() == 0 {
        0
    } else {
        digits_val(s.drop_last()) * 10 + (s.last() as u32 - 48)
    }
}

proof fn lemma_digits_val_nonneg(s: Seq<char>)
    requires
        forall|j: int| 0 <= j < s.len() ==> 48 <= #[trigger] (s[j] as u32) <= 57,
    ensures
        digits_val(s) >= 0,
    decreases s.len(),
{
    if s.len() > 0 {
        lemma_digits_val_nonneg(s.drop_last());
    }
}

proof fn lemma_digits_val_prefix(s: Seq<char>, i: int)
    requires
        0 <= i <= s.len(),
        forall|j: int| 0 <= j < s.len() ==> 48 <= #[trigger] (s[j] as u32) <= 57,
    ensures
        digits_val(s.take(i)) <= digits_val(s),
    decreases s.len() - i,
{
    if i == s.len() {
        assert(s.take(i) =~= s);
    } else {
        lemma_digits_val_prefix(s, i + 1);
        assert(s.take(i + 1).drop_last() =~= s.take(i));
        assert(s.take(i + 1).last() == s[i]);
        lemma_digits_val_nonneg(s.take(i));
    }
}

/// The first space-delimited token of a line: everything before the first
/// space, or the whole line when it has no space.
pub open spec fn token_of(s: Seq<char>) -> Seq<char> {
    let i = find_char(s, ' ');
    if i < 0 {
        s
    } else {
        s.subrange(0, i)
    }
}

/// The status code a `Status` header value carries: its first token read as
/// a decimal number, or `200` when that token is missing, is not a number,
/// or does not fit.
pub open spec fn status_of_line(l: Seq<char>) -> int {
    let t = token_of(l);
    if is_digits(t) && digits_val(t) <= 65535 {
        digits_val(t)
    } else {
        200
    }
}

/// The status code derived from the values stored under `Status`: the first
/// value decides, and with no value at all the code defaults to `200`.
pub open spec fn status_of(vals: Option<Seq<Seq<char>>>) -> int {
    match vals {
        None => 200,
        Some(vs) => if vs.len() == 0 {
            200
        } else {
            status_of_line(vs[0])
        },
    }
}

/// Reads the status code out of one `Status` header value.
fn parse_status_value(line: &str) -> (code: u16)
    ensures
        code as int == status_of_line(line@),
{
    let n: usize = line.unicode_len();
    let tok_end: usize = match find_first(line, ' ') {
        Some(i) => i,
        None => n,
    };
    proof {
        lemma_find_char(line@, ' ');
        if find_char(line@, ' ') < 0 {
            assert(line@.subrange(0, n as int) =~= line@);
        }
    }
    let token = line.substring_char(0, tok_end);
    proof {
        assert(token@ =~= token_of(line@));
    }
    let tn: usize = token.unicode_len();
    if tn == 0 {
        return 200;
    }
    let mut val: u32 = 0;
    let mut i: usize = 0;
    while i < tn
        invariant
            i <= tn,
            tn == token@.len(),
            tn > 0,
            token@ == token_of(line@),
            val <= 65535,
            val == digits_val(token@.take(i as int)),
            forall|j: int| 0 <= j < i ==> 48 <= #[trigger] (token@[j] as u32) <= 57,
        decreases tn - i,
    {
        let c = token.get_char(i);
        let cu: u32 = c as u32;
        if !(48 <= cu && cu <= 57) {
            assert(!is_digits(token@));
            return 200;
        }
        let d: u32 = cu - 48;
        let nv: u32 = val * 10 + d;
        proof {
            assert(token@.take(i as int + 1).drop_last() =~= token@.take(i as int));
            assert(token@.take(i as int + 1).last() == token@[i as int]);
        }
        if nv > 65535 {
            proof {
                if is_digits(token@) {
                    lemma_digits_val_prefix(token@, i as int + 1);
                }
            }
            return 200;
        }
        val = nv;
        i = i + 1;
    }
    proof {
        assert(token@.take(tn as int) =~= token@);
        assert(is_digits(token@));
    }
    val as u16
}

/// The response head: the status code and the remaining headers, the
/// `Status` pseudo-header already removed.
#[derive(Debug)]
pub struct ResponseHead {
    pub status: u16,
    pub headers: Headers,
}

/// What a parsed header map yields as a response head: the status code read
/// from the `Status` pseudo-header, and the map without that entry.
pub open spec fn head_of(hs: HeadersView) -> (int, HeadersView) {
    (status_of(lookup(hs, "Status"@)), remove_name(hs, "Status"@))
}

/// Turns a parsed header map into the response head: the `Status`
/// pseudo-header is taken out and read as the status code, everything else
/// is forwarded verbatim.
pub fn response_head(headers: Headers) -> (h: ResponseHead)
    requires
        headers.wf(),
    ensures
        h.headers.wf(),
        h.status as int == head_of(headers@).0,
        h.headers@ == head_of(headers@).1,
{
    let mut headers = headers;
    let status: u16 = match headers.remove("Status") {
        None => 200,
        Some(vals) => {
            if vals.len() == 0 {
                proof {
                    assert(vals.deep_view().len() == 0);
                }
                200
            } else {
                proof {
                    assert(vals.deep_view()[0] == vals@[0]@);
                }
                parse_status_value(vals[0].as_str())
            }
        }
    };
    ResponseHead { status, headers }
}

/// The head the whole block of lines yields: status, headers and consumed
/// line count, or nothing when a malformed line stops the parse.
pub open spec fn head_of_block(lines: Seq<Seq<char>>) -> Option<((int, HeadersView), int)> {
    match parse_block(Seq::empty(), lines) {
        Some((hs, n)) => Some((head_of(hs), n)),
        None => None,
    }
}

/// Parses a backend output head from its lines into a response head plus
/// the count of consumed lines; everything after those lines is body data.
pub fn parse_cgi_head(lines: &Vec<String>) -> (r: Result<(ResponseHead, usize), BridgeError>)
    ensures
        match r {
            Ok((h, n)) => {
                &&& h.headers.wf()
                &&& n <= lines@.len()
                &&& head_of_block(lines.deep_view()) == Some(
                    ((h.status as int, h.headers@), n as int),
                )
            },
            Err(e) => {
                &&& e == BridgeError::ResponseParseError
                &&& head_of_block(lines.deep_view()) is None
            },
        },
{
    match parse_header_block(lines) {
        Ok((headers, n)) => {
            let head = response_head(headers);
            Ok((head, n))
        }
        Err(e) => Err(e),
    }
}

} // verus!
