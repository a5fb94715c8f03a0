//! Response formats: the content-type tag attached to every canned response.

use vstd::prelude::*;

verus! {

/// The severity below which log lines are discarded.  Only the application
/// shell acts on it; it is carried through the parsed arguments.
#[derive(Clone, Copy, Debug, PartialEq, Eq, Structural)]
pub enum LogType {
    Info,
    Warn,
    Error,
    Debug,
}

/// The content-type tag of a canned response.
#[derive(Clone, Copy, Debug, PartialEq, Eq, Structural)]
pub enum ResponseFormat {
    Json,
    Html,
    Empty,
}

/// Why a textual response format could not be parsed.
#[derive(Debug, Clone)]
pub enum ResponseFormatError {
    ParseFailedError(String),
}

/// The content-type text a format stands for.
pub open spec fn format_content_type(f: ResponseFormat) -> Seq<char> {
    match f {
        ResponseFormat::Json => "application/json"@,
        ResponseFormat::Html => "text/html"@,
        ResponseFormat::Empty => Seq::<char>::empty(),
    }
}

/// ASCII lower-casing of a single character; anything outside `A..Z` is kept.
pub open spec fn lower_char(c: char) -> char {
    if 'A' <= c && c <= 'Z' {
        (((c as u8) + 32) as u8) as char
    } else {
        c
    }
}

/// ASCII lower-casing of a character sequence.
pub open spec fn lower_seq(s: Seq<char>) -> Seq<char> {
    s.map(|i: int, c: char| lower_char(c))
}

impl ResponseFormat {
    /// The content-type text this format stands for, `""` for `Empty`.
    pub fn to_string(&self) -> (r: String)
        ensures
            r@ == format_content_type(*self),
    {
        match *self {
            ResponseFormat::Json => {
                let r = String::from_str("application/json");
                proof {
                    reveal_strlit("application/json");
                }
                r
            },
            ResponseFormat::Html => {
                let r = String::from_str("text/html");
                proof {
                    reveal_strlit("text/html");
                }
                r
            },
            ResponseFormat::Empty => String::new(),
        }
    }

    /// Parses a format name, ignoring ASCII case: `"json"`, `"html"` or the
    /// empty string; anything else is rejected with the offending text.
    pub fn from_str(s: &str) -> (r: Result<ResponseFormat, ResponseFormatError>)
        ensures
            lower_seq(s@) == "json"@ ==> (r matches Ok(f) && f == ResponseFormat::Json),
            lower_seq(s@) == "html"@ ==> (r matches Ok(f) && f == ResponseFormat::Html),
            s@.len() == 0 ==> (r matches Ok(f) && f == ResponseFormat::Empty),
            r matches Err(e) ==> {
                &&& lower_seq(s@) != "json"@
                &&& lower_seq(s@) != "html"@
                &&& s@.len() != 0
                &&& e matches ResponseFormatError::ParseFailedError(t) && t@ == s@
            },
            r matches Ok(f) ==> match f {
                ResponseFormat::Json => lower_seq(s@) == "json"@,
                ResponseFormat::Html => lower_seq(s@) == "html"@,
                ResponseFormat::Empty => s@.len() == 0,
            },
    {
        proof {
            reveal_strlit("json");
            reveal_strlit("html");
            assert("json"@.len() == 4);
            assert("html"@.len() == 4);
            assert("json"@[0] == 'j');
            assert("html"@[0] == 'h');
            assert(lower_seq(s@).len() == s@.len());
        }
        if matches_lowered(s, "json") {
            Ok(ResponseFormat::Json)
        } else if matches_lowered(s, "html") {
            Ok(ResponseFormat::Html)
        } else if s.unicode_len() == 0 {
            Ok(ResponseFormat::Empty)
        } else {
            Err(ResponseFormatError::ParseFailedError(s.to_owned()))
        }
    }
}

/// Whether `s`, lower-cased ASCII-wise, reads exactly as `lit`.
fn matches_lowered(s: &str, lit: &str) -> (r: bool)
    ensures
        r == (lower_seq(s@) == lit@),
{
    let n = s.unicode_len();
    if n != lit.unicode_len() {
        assert(lower_seq(s@).len() == s@.len());
        return false;
    }
    let mut i: usize = 0;
    while i < n
        invariant
            0 <= i <= n,
            n == s@.len(),
            n == lit@.len(),
            forall|j: int| 0 <= j < i ==> lower_seq(s@)[j] == lit@[j],
        decreases n - i,
    {
        let c = s.get_char(i);
        let lowered = if 'A' <= c && c <= 'Z' {
            (((c as u8) + 32) as u8) as char
        } else {
            c
        };
        assert(lowered == lower_char(s@[i as int]));
        if lowered != lit.get_char(i) {
            assert(lower_seq(s@)[i as int] != lit@[i as int]);
            return false;
        }
        i += 1;
    }
    assert(lower_seq(s@) =~= lit@);
    true
}

} // verus!
