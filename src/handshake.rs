//! The canvas size handshake: the request line, and the reading of the
//! server's `SIZE <width> <height>` answer.

use vstd::prelude::*;

verus! {

/// The request that asks a server for its canvas size.
pub const SIZE_REQUEST: &'static str = "SIZE\n";

/// The answer to [`SIZE_REQUEST`]: the keyword in any case, two runs of
/// digits, whitespace around and between them.
pub const SIZE_PATTERN: &'static str = r"^(?i)\s*SIZE\s+([[:digit:]]+)\s+([[:digit:]]+)\s*$";

/// Why a size answer was refused.
#[derive(Clone, Copy, Debug, PartialEq, Eq, Structural)]
pub enum HandshakeError {
    /// The line is not of the form `SIZE <width> <height>`.
    Malformed,
    /// A size does not fit in 16 bits.
    InvalidNumber,
}

/// Groups 1 and 2 of the leftmost match of regular expression `pattern` in
/// `hay`, or `None` where the pattern does not compile, nothing matches, or
/// a group takes no part in the match.
pub uninterp spec fn capture_pair(pattern: Seq<char>, hay: Seq<char>) -> Option<(Seq<char>, Seq<char>)>;

/// Relies on `regex::Regex::new` and `regex::Regex::captures`: compiles
/// `pattern` and hands back the text of its first two groups in `hay`.
#[verifier::external_body]
fn regex_capture_pair(pattern: &str, hay: &str) -> (r: Option<(String, String)>)
    ensures
        r matches Some(p) ==> capture_pair(pattern@, hay@) == Some((p.0@, p.1@)),
        r is None ==> capture_pair(pattern@, hay@) is None,
{
    let caps = regex::Regex::new(pattern).ok()?.captures(hay)?;
    Some((caps.get(1)?.as_str().to_string(), caps.get(2)?.as_str().to_string()))
}

/// The value of a run of decimal digits.
pub open spec fn digits_value(s: Seq<char>) -> nat
    decreases s.len(),
{
    if s.len() == 0 {
        0
    } else {
        digits_value(s.drop_last()) * 10 + (s.last() as nat - '0' as nat) as nat
    }
}

/// Whether `s` is one or more ASCII decimal digits.
pub open spec fn is_digit_run(s: Seq<char>) -> bool {
    s.len() > 0 && forall|i: int| 0 <= i < s.len() ==> '0' <= #[trigger] s[i] <= '9'
}

/// What `u16` reads from `s`: an optional `+` then a run of digits whose
/// value fits in 16 bits; nothing otherwise.
pub open spec fn u16_text_value(s: Seq<char>) -> Option<u16> {
    let d = if s.len() > 0 && s[0] == '+' {
        s.drop_first()
    } else {
        s
    };
    if is_digit_run(d) && digits_value(d) <= 0xffff {
        Some(digits_value(d) as u16)
    } else {
        None
    }
}

/// Relies on `str::parse::<u16>`: an optional `+` sign followed by digits
/// only, any other text (an empty one, whitespace, a `-`) or a value above
/// `u16::MAX` being an error.
#[verifier::external_body]
fn parse_u16(s: &str) -> (r: Option<u16>)
    ensures
        r == u16_text_value(s@),
{
    s.parse::<u16>().ok()
}

/// The canvas size that two captured size texts give.
pub open spec fn size_from(groups: Option<(Seq<char>, Seq<char>)>) -> Result<(u16, u16), HandshakeError> {
    match groups {
        None => Err(HandshakeError::Malformed),
        Some((w, h)) => match (u16_text_value(w), u16_text_value(h)) {
            (Some(width), Some(height)) => Ok((width, height)),
            _ => Err(HandshakeError::InvalidNumber),
        },
    }
}

/// Reads the width and height captured from a size answer.
pub fn size_from_captures(groups: Option<(String, String)>) -> (r: Result<(u16, u16), HandshakeError>)
    ensures
        r == size_from(
            match groups {
                Some(p) => Some((p.0@, p.1@)),
                None => None,
            },
        ),
{
    match groups {
        None => Err(HandshakeError::Malformed),
        Some((w, h)) => {
            let width = parse_u16(w.as_str());
            let height = parse_u16(h.as_str());
            match (width, height) {
                (Some(width), Some(height)) => Ok((width, height)),
                _ => Err(HandshakeError::InvalidNumber),
            }
        },
    }
}

/// Reads the server's answer line to a size request as `(width, height)`.
pub fn parse_size_response(line: &str) -> (r: Result<(u16, u16), HandshakeError>)
    ensures
        r == size_from(capture_pair(SIZE_PATTERN@, line@)),
{
    let groups = regex_capture_pair(SIZE_PATTERN, line);
    size_from_captures(groups)
}

} // verus!
