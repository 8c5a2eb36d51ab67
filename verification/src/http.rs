//! What the server answers: which page a request line asks for, and the text
//! of the response that carries a page.

use vstd::prelude::*;
use vstd::string::StringExecFns;
use vstd::utf8::{encode_utf8, encode_utf8_decode_utf8};

verus! {

/// The pages the server knows.
#[derive(Clone, Copy, PartialEq, Eq, Debug, Structural)]
pub enum Page {
    /// The index page.
    Index,
    /// The index page, served after a delay.
    SlowIndex,
    /// The page for everything else.
    NotFound,
}

impl Page {
    /// The page that a request line asks for. Only two request lines are
    /// known, and they are matched as a whole.
    pub open spec fn of(request_line: Seq<char>) -> Page {
        if request_line == "GET / HTTP/1.1"@ {
            Page::Index
        } else if request_line == "GET /sleep HTTP/1.1"@ {
            Page::SlowIndex
        } else {
            Page::NotFound
        }
    }

    /// The status line of the response that carries the page.
    pub open spec fn spec_status_line(self) -> Seq<char> {
        match self {
            Page::NotFound => "HTTP/1.1 404 NOT FOUND"@,
            _ => "HTTP/1.1 200 OK"@,
        }
    }

    /// The name of the file that holds the page.
    pub open spec fn spec_filename(self) -> Seq<char> {
        match self {
            Page::NotFound => "404.html"@,
            _ => "index.html"@,
        }
    }

    /// For how many seconds the server waits before it serves the page.
    pub open spec fn spec_delay_secs(self) -> u64 {
        match self {
            Page::SlowIndex => 5,
            _ => 0,
        }
    }

    /// The status line of the response that carries the page.
    pub fn status_line(self) -> (line: &'static str)
        ensures
            line@ == self.spec_status_line(),
    {
        match self {
            Page::NotFound => "HTTP/1.1 404 NOT FOUND",
            _ => "HTTP/1.1 200 OK",
        }
    }

    /// The name of the file that holds the page.
    pub fn filename(self) -> (name: &'static str)
        ensures
            name@ == self.spec_filename(),
    {
        match self {
            Page::NotFound => "404.html",
            _ => "index.html",
        }
    }

    /// For how many seconds the server waits before it serves the page.
    #[verifier::when_used_as_spec(spec_delay_secs)]
    pub fn delay_secs(self) -> (secs: u64)
        ensures
            secs == self.delay_secs(),
    {
        match self {
            Page::SlowIndex => 5,
            _ => 0,
        }
    }
}

/// Whether two strings hold the same text.
fn same_text(a: &str, b: &str) -> (same: bool)
    ensures
        same == (a@ == b@),
{
    let left = a.as_bytes();
    let right = b.as_bytes();
    proof {
        encode_utf8_decode_utf8(a@);
        encode_utf8_decode_utf8(b@);
    }
    if left.len() != right.len() {
        return false;
    }
    let mut i: usize = 0;
    while i < left.len()
        invariant
            i <= left.len(),
            left.len() == right.len(),
            left@ == encode_utf8(a@),
            right@ == encode_utf8(b@),
            forall|k: int| 0 <= k < i ==> left@[k] == right@[k],
        decreases left.len() - i,
    {
        if left[i] != right[i] {
            return false;
        }
        i = i + 1;
    }
    assert(left@ =~= right@);
    true
}

/// Picks the page for a request line.
pub fn route(request_line: &str) -> (page: Page)
    ensures
        page == Page::of(request_line@),
{
    if same_text(request_line, "GET / HTTP/1.1") {
        Page::Index
    } else if same_text(request_line, "GET /sleep HTTP/1.1") {
        Page::SlowIndex
    } else {
        Page::NotFound
    }
}

/// The character for one decimal digit.
pub open spec fn digit(d: nat) -> char {
    if d == 0 {
        '0'
    } else if d == 1 {
        '1'
    } else if d == 2 {
        '2'
    } else if d == 3 {
        '3'
    } else if d == 4 {
        '4'
    } else if d == 5 {
        '5'
    } else if d == 6 {
        '6'
    } else if d == 7 {
        '7'
    } else if d == 8 {
        '8'
    } else {
        '9'
    }
}

/// A number in decimal notation, without leading zeros.
pub open spec fn decimal(n: nat) -> Seq<char>
    decreases n,
{
    if n < 10 {
        seq![digit(n)]
    } else {
        decimal(n / 10).push(digit(n % 10))
    }
}

/// The text of a response: the status line, a header that gives the length
/// of the contents in bytes, an empty line, and the contents.
pub open spec fn response_text(status_line: Seq<char>, contents: Seq<char>) -> Seq<char> {
    status_line + "\r\nContent-Length: "@ + decimal(encode_utf8(contents).len()) + "\r\n\r\n"@
        + contents
}

/// One decimal digit as a string.
fn digit_str(d: usize) -> (text: &'static str)
    requires
        d < 10,
    ensures
        text@ == seq![digit(d as nat)],
{
    proof {
        reveal_strlit("0");
        reveal_strlit("1");
        reveal_strlit("2");
        reveal_strlit("3");
        reveal_strlit("4");
        reveal_strlit("5");
        reveal_strlit("6");
        reveal_strlit("7");
        reveal_strlit("8");
        reveal_strlit("9");
    }
    let text = if d == 0 {
        "0"
    } else if d == 1 {
        "1"
    } else if d == 2 {
        "2"
    } else if d == 3 {
        "3"
    } else if d == 4 {
        "4"
    } else if d == 5 {
        "5"
    } else if d == 6 {
        "6"
    } else if d == 7 {
        "7"
    } else if d == 8 {
        "8"
    } else {
        "9"
    };
    assert(text@ =~= seq![digit(d as nat)]);
    text
}

/// Appends `n` in decimal notation to `out`.
fn append_decimal(out: &mut String, n: usize)
    ensures
        final(out)@ == old(out)@ + decimal(n as nat),
    decreases n,
{
    if n >= 10 {
        append_decimal(out, n / 10);
    }
    out.append(digit_str(n % 10));
    assert(out@ =~= old(out)@ + decimal(n as nat));
}

/// Builds the response that carries `contents` under `status_line`.
pub fn response(status_line: &str, contents: &str) -> (text: String)
    ensures
        text@ == response_text(status_line@, contents@),
{
    let mut text = String::from_str(status_line);
    text.append("\r\nContent-Length: ");
    append_decimal(&mut text, contents.as_bytes().len());
    text.append("\r\n\r\n");
    text.append(contents);
    text
}

} // verus!
