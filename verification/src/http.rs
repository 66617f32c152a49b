//! The request handler's rules: which page answers a request line, and how a
//! response is framed.

use vstd::prelude::*;
use vstd::string::*;

verus! {

/// How a request is answered.
#[derive(Clone, Copy, Debug)]
pub struct Route {
    /// The first line of the response.
    pub status_line: &'static str,
    /// The file whose contents are the response's body.
    pub filename: &'static str,
    /// Seconds to wait before answering.
    pub delay_secs: u64,
}

/// The status line, the file name and the delay for a request line, given as
/// its bytes.
pub open spec fn route_of(request_line: Seq<u8>) -> (Seq<char>, Seq<char>, u64) {
    if request_line == "GET / HTTP/1.1".spec_bytes() {
        ("HTTP/1.1 200 OK"@, "hello.html"@, 0)
    } else if request_line == "GET /sleep HTTP/1.1".spec_bytes() {
        ("HTTP/1.1 200 OK"@, "hello.html"@, 5)
    } else {
        ("HTTP/1.1 404 NOT FOUND"@, "404.html"@, 0)
    }
}

/// The decimal digit for `d`, which is below ten.
pub open spec fn digit(d: nat) -> char {
    if d == 0 {
        '0'
    } else if d == 1 {
        '1'
    } else if d == 2 {
        '2'
    } else if d == 3 {
        '3'
    } else if d == 4 {
        '4'
    } else if d == 5 {
        '5'
    } else if d == 6 {
        '6'
    } else if d == 7 {
        '7'
    } else if d == 8 {
        '8'
    } else {
        '9'
    }
}

/// `n` in decimal, without leading zeros.
pub open spec fn decimal_of(n: nat) -> Seq<char>
    decreases n,
{
    if n < 10 {
        seq![digit(n)]
    } else {
        decimal_of(n / 10).push(digit(n % 10))
    }
}

/// A response: the status line, the length of the body in a header of its
/// own, an empty line, and the body.
pub open spec fn response_of(status_line: Seq<char>, length: nat, contents: Seq<char>) -> Seq<char> {
    status_line + "\r\nContent-Length: "@ + decimal_of(length) + "\r\n\r\n"@ + contents
}

/// Whether two byte strings are equal.
fn same_bytes(a: &[u8], b: &[u8]) -> (same: bool)
    ensures
        same == (a@ == b@),
{
    if a.len() != b.len() {
        return false;
    }
    let mut i: usize = 0;
    while i < a.len()
        invariant
            i <= a.len(),
            a.len() == b.len(),
            forall|k: int| 0 <= k < i ==> a@[k] == b@[k],
        decreases a.len() - i,
    {
        if a[i] != b[i] {
            return false;
        }
        i += 1;
    }
    assert(a@ =~= b@);
    true
}

/// Chooses the answer to a request by its first line.
pub fn route(request_line: &str) -> (route: Route)
    ensures
        (route.status_line@, route.filename@, route.delay_secs) == route_of(
            request_line.spec_bytes(),
        ),
{
    let line = request_line.as_bytes();
    if same_bytes(line, "GET / HTTP/1.1".as_bytes()) {
        Route { status_line: "HTTP/1.1 200 OK", filename: "hello.html", delay_secs: 0 }
    } else if same_bytes(line, "GET /sleep HTTP/1.1".as_bytes()) {
        Route { status_line: "HTTP/1.1 200 OK", filename: "hello.html", delay_secs: 5 }
    } else {
        Route { status_line: "HTTP/1.1 404 NOT FOUND", filename: "404.html", delay_secs: 0 }
    }
}

/// One decimal digit as text.
fn digit_text(d: usize) -> (text: &'static str)
    requires
        d < 10,
    ensures
        text@ == seq![digit(d as nat)],
{
    proof {
        reveal_strlit("0");
        reveal_strlit("1");
        reveal_strlit("2");
        reveal_strlit("3");
        reveal_strlit("4");
        reveal_strlit("5");
        reveal_strlit("6");
        reveal_strlit("7");
        reveal_strlit("8");
        reveal_strlit("9");
    }
    let text = if d == 0 {
        "0"
    } else if d == 1 {
        "1"
    } else if d == 2 {
        "2"
    } else if d == 3 {
        "3"
    } else if d == 4 {
        "4"
    } else if d == 5 {
        "5"
    } else if d == 6 {
        "6"
    } else if d == 7 {
        "7"
    } else if d == 8 {
        "8"
    } else {
        "9"
    };
    assert(text@ =~= seq![digit(d as nat)]);
    text
}

/// Writes `n` in decimal.
pub fn decimal(n: usize) -> (text: String)
    ensures
        text@ == decimal_of(n as nat),
    decreases n,
{
    if n < 10 {
        String::from_str(digit_text(n))
    } else {
        let mut text = decimal(n / 10);
        text.append(digit_text(n % 10));
        text
    }
}

/// The body sent when the file of a page cannot be read.
pub fn fallback_contents(filename: &str) -> (contents: String)
    ensures
        contents@ == "Unable to open file "@ + filename@,
{
    let mut contents = String::from_str("Unable to open file ");
    contents.append(filename);
    contents
}

/// Frames a response around `contents`; the length it announces is the
/// number of bytes of `contents`.
pub fn response(status_line: &str, contents: &str) -> (text: String)
    ensures
        text@ == response_of(status_line@, contents.spec_bytes().len() as usize as nat, contents@),
{
    let length: usize = contents.len();
    let digits = decimal(length);
    let mut text = String::from_str(status_line);
    text.append("\r\nContent-Length: ");
    text.append(digits.as_str());
    text.append("\r\n\r\n");
    text.append(contents);
    text
}

} // verus!
