//! A minimal HTTP request reader and response writer.
use vstd::prelude::*;
use crate::text::{
    chars_of, find_exec, find_from, lemma_find_from_found, skip_ws, skip_ws_exec, word_end,
    word_end_exec,
};

verus! {

/// `std::io::Error`, carried unopened inside `AspirinEatsError::Io`; nothing is
/// assumed of its contents.
#[verifier::external_type_specification]
#[verifier::external_body]
pub struct ExIoError(std::io::Error);

/// What can go wrong while serving a request.
#[derive(Debug)]
pub enum AspirinEatsError {
    /// The request body could not be parsed; the parser's message.
    ParseError(String),
    /// The database refused an operation; its message.
    Database(String),
    /// Reading from or writing to the connection failed.
    Io(std::io::Error),
    InvalidRequest,
    NotFound,
    MethodNotAllowed,
}

/// The parts of an HTTP request that the server looks at.
pub struct HttpRequest {
    /// The HTTP method used in the request (GET, POST, etc)
    pub method: Option<String>,
    /// The path requested by the client
    pub path: Option<String>,
    /// The body of the request
    pub body: Option<String>,
}

/// An HTTP response: status line and body.
pub struct HttpResponse {
    pub status_code: u16,
    pub status_text: String,
    pub body: String,
}

/// The empty line that ends the head of a request.
pub open spec fn blank_line() -> Seq<char> {
    seq!['\r', '\n', '\r', '\n']
}

/// The head of a request: everything before the first blank line.
pub open spec fn head_of(s: Seq<char>) -> Seq<char> {
    match find_from(s, blank_line(), 0) {
        Some(p) => s.subrange(0, p),
        None => s,
    }
}

/// The body of a request: everything after the first blank line, if there is one.
pub open spec fn body_of(s: Seq<char>) -> Option<Seq<char>> {
    match find_from(s, blank_line(), 0) {
        Some(p) => Some(s.subrange(p + 4, s.len() as int)),
        None => None,
    }
}

/// The first position at or after `i` that holds a line feed, or the end.
pub open spec fn line_end(s: Seq<char>, i: int) -> int
    decreases s.len() - i,
{
    if 0 <= i < s.len() && s[i] != '\n' {
        line_end(s, i + 1)
    } else {
        i
    }
}

/// The first line of `h` without its ending (`\n` or `\r\n`); none if `h` is empty.
pub open spec fn first_line(h: Seq<char>) -> Option<Seq<char>> {
    if h.len() == 0 {
        None
    } else {
        let k = line_end(h, 0);
        if k < h.len() && k > 0 && h[k - 1] == '\r' {
            Some(h.subrange(0, k - 1))
        } else {
            Some(h.subrange(0, k))
        }
    }
}

/// The first whitespace-separated word of `s` at or after `i`.
pub open spec fn word_from(s: Seq<char>, i: int) -> Option<Seq<char>> {
    let a = skip_ws(s, i);
    if a >= s.len() {
        None
    } else {
        Some(s.subrange(a, word_end(s, a)))
    }
}

/// The first whitespace-separated word of `s`.
pub open spec fn first_word(s: Seq<char>) -> Option<Seq<char>> {
    word_from(s, 0)
}

/// The second whitespace-separated word of `s`.
pub open spec fn second_word(s: Seq<char>) -> Option<Seq<char>> {
    let a = skip_ws(s, 0);
    if a >= s.len() {
        None
    } else {
        word_from(s, word_end(s, a))
    }
}

/// What an optional string holds.
pub open spec fn opt_view(o: Option<String>) -> Option<Seq<char>> {
    match o {
        Some(s) => Some(s@),
        None => None,
    }
}

/// The first position at or after `i` and before `end` that holds `c`, or `end`.
fn scan_to(v: &Vec<char>, i: usize, end: usize, c: char) -> (k: usize)
    requires
        i <= end <= v@.len(),
    ensures
        i <= k <= end,
        line_end(v@.subrange(0, end as int), i as int) == k || c != '\n',
{
    let ghost h = v@.subrange(0, end as int);
    let mut k = i;
    while k < end && v[k] != c
        invariant
            i <= k <= end <= v@.len(),
            h == v@.subrange(0, end as int),
            c == '\n' ==> line_end(h, k as int) == line_end(h, i as int),
        decreases end - k,
    {
        assert(h[k as int] == v@[k as int]);
        k += 1;
    }
    k
}

/// The characters `from..to` of `s` as a new string.
fn owned_part(s: &str, from: usize, to: usize) -> (r: String)
    requires
        from <= to <= s@.len(),
    ensures
        r@ == s@.subrange(from as int, to as int),
{
    String::from_str(s.substring_char(from, to))
}

impl HttpRequest {
    /// Read a request: the method and path are the first two words of its first
    /// line, the body is what follows the first blank line. A request whose head
    /// is empty is refused.
    pub fn from_str(s: &str) -> (r: Result<HttpRequest, AspirinEatsError>)
        ensures
            r is Err <==> first_line(head_of(s@)) is None,
            r matches Err(e) ==> e is InvalidRequest,
            r matches Ok(req) ==> first_line(head_of(s@)) matches Some(line) && opt_view(
                req.method,
            ) == first_word(line) && opt_view(req.path) == second_word(line) && opt_view(
                req.body,
            ) == body_of(s@),
    {
        let v = chars_of(s);
        let n = v.len();
        let blank = vec!['\r', '\n', '\r', '\n'];
        proof {
            assert(blank@ =~= blank_line());
        }
        let (head_end, body) = match find_exec(&v, &blank, 0) {
            Some(p) => {
                proof {
                    lemma_find_from_found(v@, blank@, 0);
                }
                (p, Some(owned_part(s, p + 4, n)))
            },
            None => (n, None),
        };
        let ghost h = v@.subrange(0, head_end as int);
        assert(h =~= head_of(s@));
        if head_end == 0 {
            return Err(AspirinEatsError::InvalidRequest);
        }
        let k = scan_to(&v, 0, head_end, '\n');
        let line_len = if k < head_end && k > 0 && v[k - 1] == '\r' {
            k - 1
        } else {
            k
        };
        let ghost line = v@.subrange(0, line_len as int);
        assert(first_line(h) == Some(line)) by {
            assert(h.subrange(0, line_len as int) =~= line);
        }
        let a = skip_ws_exec(&v, 0, line_len);
        let (method, path) = if a >= line_len {
            (None, None)
        } else {
            let b = word_end_exec(&v, a, line_len);
            let method = owned_part(s, a, b);
            let c = skip_ws_exec(&v, b, line_len);
            let path = if c >= line_len {
                None
            } else {
                let d = word_end_exec(&v, c, line_len);
                Some(owned_part(s, c, d))
            };
            (Some(method), path)
        };
        Ok(HttpRequest { method, path, body })
    }
}

impl std::str::FromStr for HttpRequest {
    type Err = AspirinEatsError;

    fn from_str(s: &str) -> Result<Self, Self::Err> {
        HttpRequest::from_str(s)
    }
}


/// The decimal digit `d`.
pub open spec fn digit_char(d: nat) -> char {
    seq!['0', '1', '2', '3', '4', '5', '6', '7', '8', '9'][d as int]
}

/// `n` written in decimal, without leading zeros.
pub open spec fn decimal(n: nat) -> Seq<char>
    decreases n,
{
    if n < 10 {
        seq![digit_char(n)]
    } else {
        decimal(n / 10).push(digit_char(n % 10))
    }
}

/// The text of a response: status line, an empty line, then the body.
pub open spec fn response_text(code: nat, text: Seq<char>, body: Seq<char>) -> Seq<char> {
    seq!['H', 'T', 'T', 'P', '/', '1', '.', '1', ' '] + decimal(code) + seq![' '] + text
        + blank_line() + body
}

/// The status code, status text and body that answer an error.
pub open spec fn error_response(e: AspirinEatsError) -> (u16, Seq<char>, Seq<char>) {
    match e {
        AspirinEatsError::ParseError(_) => (400, "Bad Request"@, "Failed to parse request\n"@),
        AspirinEatsError::Database(_) => (
            503,
            "Service Unavailable"@,
            "Failed to interact with database\n"@,
        ),
        AspirinEatsError::Io(_) => (500, "Internal Server Error"@, "Internal Server Error\n"@),
        AspirinEatsError::InvalidRequest => (400, "Bad Request"@, "Invalid Request\n"@),
        AspirinEatsError::NotFound => (404, "Not Found"@, "Resource not found\n"@),
        AspirinEatsError::MethodNotAllowed => (
            405,
            "Method Not Allowed"@,
            "Method not allowed\n"@,
        ),
    }
}

/// Append `n` in decimal to `out`.
fn push_decimal(out: &mut String, n: u16)
    ensures
        final(out)@ == old(out)@ + decimal(n as nat),
    decreases n,
{
    if n >= 10 {
        push_decimal(out, n / 10);
    }
    let d = (n % 10) as usize;
    let digits = "0123456789";
    proof {
        reveal_strlit("0123456789");
        assert(digits@ =~= seq!['0', '1', '2', '3', '4', '5', '6', '7', '8', '9']);
    }
    let digit = digits.substring_char(d, d + 1);
    proof {
        assert(digit@ =~= seq![digit_char(d as nat)]);
    }
    out.append(digit);
    proof {
        if n >= 10 {
            assert(final(out)@ =~= old(out)@ + decimal(n as nat));
        } else {
            assert(final(out)@ =~= old(out)@ + decimal(n as nat));
        }
    }
}

impl HttpResponse {
    /// A response with the given status and body.
    pub fn new(status_code: u16, status_text: &str, body: &str) -> (r: HttpResponse)
        ensures
            r.status_code == status_code,
            r.status_text@ == status_text@,
            r.body@ == body@,
    {
        HttpResponse {
            status_code,
            status_text: String::from_str(status_text),
            body: String::from_str(body),
        }
    }

    /// The response as sent on the wire: `HTTP/1.1 <code> <text>`, an empty line,
    /// then the body.
    pub fn to_string(&self) -> (r: String)
        ensures
            r@ == response_text(self.status_code as nat, self.status_text@, self.body@),
    {
        let head = "HTTP/1.1 ";
        let space = " ";
        let blank = "\r\n\r\n";
        proof {
            reveal_strlit("HTTP/1.1 ");
            reveal_strlit(" ");
            reveal_strlit("\r\n\r\n");
        }
        let mut out = String::from_str(head);
        push_decimal(&mut out, self.status_code);
        out.append(space);
        out.append(self.status_text.as_str());
        out.append(blank);
        out.append(self.body.as_str());
        assert(out@ =~= response_text(self.status_code as nat, self.status_text@, self.body@));
        out
    }

    /// The response that answers an error.
    pub fn from_error(e: &AspirinEatsError) -> (r: HttpResponse)
        ensures
            (r.status_code, r.status_text@, r.body@) == error_response(*e),
    {
        match e {
            AspirinEatsError::ParseError(_) => HttpResponse::new(
                400,
                "Bad Request",
                "Failed to parse request\n",
            ),
            AspirinEatsError::Database(_) => HttpResponse::new(
                503,
                "Service Unavailable",
                "Failed to interact with database\n",
            ),
            AspirinEatsError::Io(_) => HttpResponse::new(
                500,
                "Internal Server Error",
                "Internal Server Error\n",
            ),
            AspirinEatsError::InvalidRequest => HttpResponse::new(
                400,
                "Bad Request",
                "Invalid Request\n",
            ),
            AspirinEatsError::NotFound => HttpResponse::new(
                404,
                "Not Found",
                "Resource not found\n",
            ),
            AspirinEatsError::MethodNotAllowed => HttpResponse::new(
                405,
                "Method Not Allowed",
                "Method not allowed\n",
            ),
        }
    }
}

impl From<AspirinEatsError> for HttpResponse {
    fn from(value: AspirinEatsError) -> (r: HttpResponse) {
        HttpResponse::from_error(&value)
    }
}

impl vstd::std_specs::convert::FromSpecImpl<AspirinEatsError> for HttpResponse {
    /// What `from` returns is stated by `from_error`, over the views of the strings.
    open spec fn obeys_from_spec() -> bool {
        false
    }

    open spec fn from_spec(v: AspirinEatsError) -> HttpResponse {
        arbitrary()
    }
}

} // verus!
