//! A response as the network layer hands it over, and the text of the
//! request that asks for a document.

use vstd::prelude::*;
use vstd::string::StringExecFns;
use crate::error::Error;
use crate::text::char_digit_value;
use crate::text::char_is_digit;
use crate::text::chars_of;
use crate::text::digit_value;
use crate::text::is_ascii_digit;
use crate::text::str_equal;
use crate::text::string_of;
use crate::url::after_first;
use crate::url::before_first;
use crate::url::find_from;
use crate::url::position_of;
use crate::url::slice;

verus! {

#[derive(Debug)]
pub struct HttpResponse {
    pub version: String,
    pub status_code: u32,
    pub reason: String,
    pub headers: Vec<(String, String)>,
    pub body: String,
}

/// The value of the first header named `name`, if there is one.
pub open spec fn first_header(headers: Seq<(String, String)>, name: Seq<char>) -> Option<Seq<char>>
    decreases headers.len(),
{
    if headers.len() == 0 {
        None
    } else if headers[0].0@ == name {
        Some(headers[0].1@)
    } else {
        first_header(headers.drop_first(), name)
    }
}

impl HttpResponse {
    pub fn new(
        version: String,
        status_code: u32,
        reason: String,
        headers: Vec<(String, String)>,
        body: String,
    ) -> (r: Self)
        ensures
            r.version == version,
            r.status_code == status_code,
            r.reason == reason,
            r.headers == headers,
            r.body == body,
    {
        Self { version, status_code, reason, headers, body }
    }

    pub fn version(&self) -> (s: String)
        ensures
            s@ == self.version@,
    {
        self.version.clone()
    }

    pub fn status_code(&self) -> (c: u32)
        ensures
            c == self.status_code,
    {
        self.status_code
    }

    pub fn reason(&self) -> (s: String)
        ensures
            s@ == self.reason@,
    {
        self.reason.clone()
    }

    pub fn body(&self) -> (s: String)
        ensures
            s@ == self.body@,
    {
        self.body.clone()
    }

    /// The value of the first header named `name`, or an error that says
    /// that there is none.
    pub fn header_value(&self, name: &str) -> (r: Result<String, String>)
        ensures
            match first_header(self.headers@, name@) {
                Some(v) => r is Ok && r->Ok_0@ == v,
                None => r is Err && r->Err_0@ == "failed to find "@ + name@ + " in headers"@,
            },
    {
        let mut i: usize = 0;
        assert(self.headers@.skip(0) =~= self.headers@);
        while i < self.headers.len()
            invariant
                i <= self.headers.len(),
                first_header(self.headers@, name@) == first_header(
                    self.headers@.skip(i as int),
                    name@,
                ),
            decreases self.headers.len() - i,
        {
            assert(self.headers@.skip(i as int)[0] == self.headers@[i as int]);
            assert(self.headers@.skip(i as int).drop_first() =~= self.headers@.skip(i + 1));
            if str_equal(self.headers[i].0.as_str(), name) {
                return Ok(self.headers[i].1.clone());
            }
            i += 1;
        }
        let mut message = String::new();
        message.append("failed to find ");
        message.append(name);
        message.append(" in headers");
        assert(message@ =~= "failed to find "@ + name@ + " in headers"@);
        Err(message)
    }

    /// Where a response sends the reader on: the `Location` header of a
    /// response with status 302, if it has one.
    pub fn redirect_target(&self) -> (r: Option<String>)
        ensures
            match r {
                Some(l) => self.status_code == 302 && first_header(self.headers@, "Location"@)
                    == Some(l@),
                None => self.status_code != 302 || first_header(self.headers@, "Location"@)
                    is None,
            },
    {
        if self.status_code != 302 {
            return None;
        }
        match self.header_value("Location") {
            Ok(l) => Some(l),
            Err(_) => None,
        }
    }
}

#[derive(Debug)]
pub struct Header {
    pub name: String,
    pub value: String,
}

impl Header {
    pub fn new(name: String, value: String) -> (h: Self)
        ensures
            h.name == name,
            h.value == value,
    {
        Self { name, value }
    }
}

/// The text of a request for `path` on `host`.
pub open spec fn get_request(host: Seq<char>, path: Seq<char>) -> Seq<char> {
    "GET /"@ + path + " HTTP/1.1\n"@ + "Host: "@ + host + "\r\n"@ + "Accept: text/html\r\n"@
        + "Connection: close\r\n"@ + "\r\n"@
}

/// The text of the request that asks `host` for the document at `path`.
pub fn build_get_request(host: &str, path: &str) -> (request: String)
    ensures
        request@ == get_request(host@, path@),
{
    let mut request = String::new();
    request.append("GET /");
    request.append(path);
    request.append(" HTTP/1.1\n");
    request.append("Host: ");
    request.append(host);
    request.append("\r\n");
    request.append("Accept: text/html\r\n");
    request.append("Connection: close\r\n");
    request.append("\r\n");
    assert(request@ =~= get_request(host@, path@));
    request
}


/// `line` without the carriage return at its end, if it has one.
pub open spec fn strip_cr(line: Seq<char>) -> Seq<char> {
    if line.len() > 0 && line.last() == '\r' {
        line.drop_last()
    } else {
        line
    }
}

/// How many spaces `s` starts with, counted from `from`.
pub open spec fn spaces_from(s: Seq<char>, from: int) -> int
    decreases s.len() - from,
{
    if 0 <= from < s.len() && s[from] == ' ' {
        spaces_from(s, from + 1) + 1
    } else {
        0
    }
}

/// How many spaces the first `to` characters of `s` end with.
pub open spec fn spaces_before(s: Seq<char>, to: int) -> int
    decreases to,
{
    if 0 < to <= s.len() && s[to - 1] == ' ' {
        spaces_before(s, to - 1) + 1
    } else {
        0
    }
}

/// `s` without the spaces at its start and at its end.
pub open spec fn trim(s: Seq<char>) -> Seq<char> {
    let start = spaces_from(s, 0);
    if start >= s.len() {
        Seq::empty()
    } else {
        s.subrange(start, s.len() - spaces_before(s, s.len() as int))
    }
}

/// The number that `text` writes in decimal, if it is digits only, not
/// empty, and the number fits 32 bits.
pub open spec fn decimal_u32(text: Seq<char>) -> Option<u32>
    decreases text.len(),
{
    if text.len() == 0 {
        None
    } else if !is_ascii_digit(text.last()) {
        None
    } else if text.len() == 1 {
        Some(digit_value(text.last()) as u32)
    } else {
        match decimal_u32(text.drop_last()) {
            Some(n) => {
                let v = n * 10 + digit_value(text.last());
                if v <= u32::MAX {
                    Some(v as u32)
                } else {
                    None
                }
            },
            None => None,
        }
    }
}

/// Text whose first `k` characters write no number writes no number.
pub proof fn lemma_decimal_prefix(text: Seq<char>, k: int)
    requires
        0 < k <= text.len(),
        decimal_u32(text.take(k)) is None,
    ensures
        decimal_u32(text) is None,
    decreases text.len() - k,
{
    if k < text.len() {
        assert(text.take(k + 1).drop_last() =~= text.take(k));
        lemma_decimal_prefix(text, k + 1);
    } else {
        assert(text.take(k) =~= text);
    }
}

/// The status code that `text` names; 404 where it names none.
pub open spec fn status_code_of(text: Seq<char>) -> u32 {
    match decimal_u32(text) {
        Some(n) => n,
        None => 404,
    }
}

/// The line of `s` that starts at `from`, without its line end.
pub open spec fn line_at(s: Seq<char>, from: int) -> Seq<char> {
    strip_cr(s.subrange(from, position_of(s, '\n', from)))
}

/// Where the line behind the one that starts at `from` starts.
pub open spec fn next_line(s: Seq<char>, from: int) -> int {
    if position_of(s, '\n', from) < s.len() {
        position_of(s, '\n', from) + 1
    } else {
        s.len() as int
    }
}

/// The header that a line holds: what stands before the first `:` and what
/// stands behind it, both trimmed. A line without `:` holds none.
pub open spec fn header_of(line: Seq<char>) -> Option<(Seq<char>, Seq<char>)> {
    match after_first(line, ':') {
        Some(value) => Some((trim(before_first(line, ':')), trim(value))),
        None => None,
    }
}

/// The headers in the lines from `from` on, up to the first empty line.
pub open spec fn headers_from(s: Seq<char>, from: int) -> Seq<(Seq<char>, Seq<char>)>
    decreases s.len() - from,
{
    if !(0 <= from < s.len()) || line_at(s, from).len() == 0 || next_line(s, from) <= from {
        Seq::empty()
    } else {
        match header_of(line_at(s, from)) {
            Some(h) => seq![h] + headers_from(s, next_line(s, from)),
            None => headers_from(s, next_line(s, from)),
        }
    }
}

/// Where the body starts: behind the first empty line from `from` on, or
/// at the end where there is none.
pub open spec fn body_start(s: Seq<char>, from: int) -> int
    decreases s.len() - from,
{
    if !(0 <= from < s.len()) {
        s.len() as int
    } else if line_at(s, from).len() == 0 || next_line(s, from) <= from {
        next_line(s, from)
    } else {
        body_start(s, next_line(s, from))
    }
}

/// What a response is, over sequences of characters.
pub struct ResponseView {
    pub version: Seq<char>,
    pub status_code: u32,
    pub reason: Seq<char>,
    pub headers: Seq<(Seq<char>, Seq<char>)>,
    pub body: Seq<char>,
}

/// The response that the text `raw` spells out: a status line of version,
/// status code and reason, separated by single spaces; header lines up to
/// an empty line; and the body behind it. `None` where the text has no
/// line end or its first line has no space.
pub open spec fn response_of(raw: Seq<char>) -> Option<ResponseView> {
    if position_of(raw, '\n', 0) >= raw.len() {
        None
    } else {
        let status = line_at(raw, 0);
        match after_first(status, ' ') {
            Some(rest) => Some(
                ResponseView {
                    version: before_first(status, ' '),
                    status_code: status_code_of(before_first(rest, ' ')),
                    reason: match after_first(rest, ' ') {
                        Some(r) => r,
                        None => Seq::empty(),
                    },
                    headers: headers_from(raw, next_line(raw, 0)),
                    body: raw.subrange(body_start(raw, next_line(raw, 0)), raw.len() as int),
                },
            ),
            None => None,
        }
    }
}

/// The views of a list of headers.
pub open spec fn headers_view(headers: Seq<(String, String)>) -> Seq<(Seq<char>, Seq<char>)> {
    Seq::new(headers.len(), |i: int| (headers[i].0@, headers[i].1@))
}

/// `s` without the spaces at its start and at its end.
fn trimmed(s: &Vec<char>) -> (r: Vec<char>)
    ensures
        r@ == trim(s@),
{
    let mut start: usize = 0;
    while start < s.len() && s[start] == ' '
        invariant
            start <= s.len(),
            spaces_from(s@, 0) == spaces_from(s@, start as int) + start,
        decreases s.len() - start,
    {
        start += 1;
    }
    if start >= s.len() {
        return Vec::new();
    }
    let mut end: usize = s.len();
    while end > 0 && s[end - 1] == ' '
        invariant
            end <= s.len(),
            start < s.len(),
            s@[start as int] != ' ',
            spaces_before(s@, s@.len() as int) == spaces_before(s@, end as int) + (s.len() - end),
            end > start,
        decreases end,
    {
        end -= 1;
    }
    slice(s, start, end)
}

/// The line that starts at `from`, and where the next line starts.
fn read_line(s: &Vec<char>, from: usize) -> (r: (Vec<char>, usize))
    requires
        from <= s@.len(),
    ensures
        r.0@ == line_at(s@, from as int),
        r.1 == next_line(s@, from as int),
        from <= r.1 <= s@.len(),
        from < s@.len() ==> from < r.1,
{
    let end = find_from(s, '\n', from);
    let mut line = slice(s, from, end);
    if line.len() > 0 && line[line.len() - 1] == '\r' {
        let _ = line.pop();
        assert(line@ =~= strip_cr(s@.subrange(from as int, end as int)));
    }
    let next = if end < s.len() {
        end + 1
    } else {
        s.len()
    };
    (line, next)
}

/// The number that `text` writes in decimal, if it writes one.
fn parse_decimal(text: &Vec<char>) -> (r: Option<u32>)
    ensures
        r == decimal_u32(text@),
{
    if text.len() == 0 {
        return None;
    }
    let mut n: u32 = 0;
    let mut i: usize = 0;
    while i < text.len()
        invariant
            i <= text.len(),
            text.len() > 0,
            i > 0 ==> decimal_u32(text@.take(i as int)) == Some(n),
            i == 0 ==> n == 0,
        decreases text.len() - i,
    {
        let c = text[i];
        assert(text@.take(i + 1).last() == c);
        assert(text@.take(i + 1).drop_last() =~= text@.take(i as int));
        if !char_is_digit(c) {
            proof {
                lemma_decimal_prefix(text@, i + 1);
            }
            return None;
        }
        let d = char_digit_value(c) as u32;
        if n > (u32::MAX - d) / 10 {
            proof {
                lemma_decimal_prefix(text@, i + 1);
            }
            return None;
        }
        n = n * 10 + d;
        i += 1;
    }
    assert(text@.take(i as int) =~= text@);
    Some(n)
}

impl HttpResponse {
    /// What the response is, over sequences of characters.
    pub open spec fn view(&self) -> ResponseView {
        ResponseView {
            version: self.version@,
            status_code: self.status_code,
            reason: self.reason@,
            headers: headers_view(self.headers@),
            body: self.body@,
        }
    }

    /// The response that the text `raw` spells out, or a network error
    /// that quotes the text where it spells out none.
    pub fn parse(raw: &str) -> (r: Result<Self, Error>)
        ensures
            match response_of(raw@) {
                Some(v) => r is Ok && r->Ok_0.view() == v,
                None => r is Err && r->Err_0 is Network && r->Err_0.message_view()
                    == "invalid http response: "@ + raw@,
            },
    {
        let text = chars_of(raw);
        let first_end = find_from(&text, '\n', 0);
        let (status, mut at) = read_line(&text, 0);
        let space = find_from(&status, ' ', 0);
        if first_end >= text.len() || space >= status.len() {
            let mut message = String::new();
            message.append("invalid http response: ");
            message.append(raw);
            return Err(Error::Network(message));
        }
        let version = slice(&status, 0, space);
        let rest = slice(&status, space + 1, status.len());
        let code_end = find_from(&rest, ' ', 0);
        let code = match parse_decimal(&slice(&rest, 0, code_end)) {
            Some(n) => n,
            None => 404,
        };
        let reason = if code_end < rest.len() {
            slice(&rest, code_end + 1, rest.len())
        } else {
            Vec::new()
        };
        let ghost start = at as int;
        let mut headers: Vec<(String, String)> = Vec::new();
        let mut done = false;
        assert(headers_view(headers@) + headers_from(text@, start) =~= headers_from(text@, start));
        while !done
            invariant
                at <= text@.len(),
                !done ==> headers_view(headers@) + headers_from(text@, at as int) == headers_from(
                    text@,
                    start,
                ),
                !done ==> body_start(text@, at as int) == body_start(text@, start),
                done ==> at == body_start(text@, start) && headers_view(headers@)
                    == headers_from(text@, start),
            decreases
                (if done { 0int } else { 1int }),
                text@.len() - at,
        {
            if at >= text.len() {
                assert(headers_view(headers@) + Seq::<(Seq<char>, Seq<char>)>::empty()
                    =~= headers_view(headers@));
                done = true;
            } else {
                let (line, next) = read_line(&text, at);
                if line.len() == 0 {
                    assert(headers_view(headers@) + Seq::<(Seq<char>, Seq<char>)>::empty()
                        =~= headers_view(headers@));
                    at = next;
                    done = true;
                } else {
                    let colon = find_from(&line, ':', 0);
                    if colon < line.len() {
                        let name = string_of(&trimmed(&slice(&line, 0, colon)));
                        let value = string_of(&trimmed(&slice(&line, colon + 1, line.len())));
                        let ghost before = headers_view(headers@);
                        let ghost h = (name@, value@);
                        headers.push((name, value));
                        assert(headers_view(headers@) =~= before.push(h));
                        assert(before + (seq![h] + headers_from(text@, next as int)) =~= before.push(
                            h,
                        ) + headers_from(text@, next as int));
                    }
                    at = next;
                }
            }
        }
        let body = slice(&text, at, text.len());
        Ok(
            HttpResponse {
                version: string_of(&version),
                status_code: code,
                reason: string_of(&reason),
                headers,
                body: string_of(&body),
            },
        )
    }
}

} // verus!
