//! Addresses of the form `http://host:port/path?searchpart`.

use vstd::prelude::*;
use crate::text::chars_of;
use crate::text::string_of;

verus! {

/// The scheme that every address must hold.
pub open spec fn scheme() -> Seq<char> {
    "http://"@
}

/// `pattern` stands in `s` at position `i`.
pub open spec fn occurs_at(s: Seq<char>, pattern: Seq<char>, i: int) -> bool {
    0 <= i && i + pattern.len() <= s.len() && s.subrange(i, i + pattern.len()) == pattern
}

/// `pattern` stands somewhere in `s`.
pub open spec fn contains_text(s: Seq<char>, pattern: Seq<char>) -> bool {
    exists|i: int| occurs_at(s, pattern, i)
}

/// `s` without every copy of `pattern` that it starts with.
pub open spec fn trim_start(s: Seq<char>, pattern: Seq<char>) -> Seq<char>
    decreases s.len(),
{
    if pattern.len() > 0 && occurs_at(s, pattern, 0) {
        trim_start(s.skip(pattern.len() as int), pattern)
    } else {
        s
    }
}

/// The position of the first `c` in `s` at or after `from`, or the length
/// of `s` where there is none.
pub open spec fn position_of(s: Seq<char>, c: char, from: int) -> int
    decreases s.len() - from,
{
    if 0 <= from < s.len() && s[from] != c {
        position_of(s, c, from + 1)
    } else if from < s.len() {
        from
    } else {
        s.len() as int
    }
}

/// What comes before the first `c` in `s`: all of `s` where there is none.
pub open spec fn before_first(s: Seq<char>, c: char) -> Seq<char> {
    s.subrange(0, position_of(s, c, 0))
}

/// What comes after the first `c` in `s`, or `None` where there is none.
pub open spec fn after_first(s: Seq<char>, c: char) -> Option<Seq<char>> {
    if position_of(s, c, 0) < s.len() {
        Some(s.subrange(position_of(s, c, 0) + 1, s.len() as int))
    } else {
        None
    }
}

/// The address without its scheme.
pub open spec fn without_scheme(url: Seq<char>) -> Seq<char> {
    trim_start(url, scheme())
}

/// The host and port of an address: what stands before the first `/`.
pub open spec fn authority(url: Seq<char>) -> Seq<char> {
    before_first(without_scheme(url), '/')
}

/// The host of an address.
pub open spec fn host_of(url: Seq<char>) -> Seq<char> {
    before_first(authority(url), ':')
}

/// The port of an address; `80` where it names none.
pub open spec fn port_of(url: Seq<char>) -> Seq<char> {
    match after_first(authority(url), ':') {
        Some(p) => p,
        None => "80"@,
    }
}

/// The path of an address: what stands between the first `/` and the first
/// `?` behind it; empty where the address has no `/`.
pub open spec fn path_of(url: Seq<char>) -> Seq<char> {
    match after_first(without_scheme(url), '/') {
        Some(rest) => before_first(rest, '?'),
        None => Seq::empty(),
    }
}

/// The search part of an address: what stands behind the first `?` of what
/// follows the first `/`; empty where there is none.
pub open spec fn searchpart_of(url: Seq<char>) -> Seq<char> {
    match after_first(without_scheme(url), '/') {
        Some(rest) => match after_first(rest, '?') {
            Some(q) => q,
            None => Seq::empty(),
        },
        None => Seq::empty(),
    }
}

/// The number that a port written in decimal names: `None` where the text
/// is empty, holds anything but digits, or names a number above 65535.
pub open spec fn port_number_of(port: Seq<char>) -> Option<u16>
    decreases port.len(),
{
    if port.len() == 0 {
        None
    } else if !crate::text::is_ascii_digit(port.last()) {
        None
    } else if port.len() == 1 {
        Some(crate::text::digit_value(port.last()) as u16)
    } else {
        match port_number_of(port.drop_last()) {
            Some(n) => {
                let v = n * 10 + crate::text::digit_value(port.last());
                if v <= 65535 {
                    Some(v as u16)
                } else {
                    None
                }
            },
            None => None,
        }
    }
}

/// A port whose first `k` characters name no number names no number.
pub proof fn lemma_port_prefix(port: Seq<char>, k: int)
    requires
        0 < k <= port.len(),
        port_number_of(port.take(k)) is None,
    ensures
        port_number_of(port) is None,
    decreases port.len() - k,
{
    if k < port.len() {
        assert(port.take(k + 1).drop_last() =~= port.take(k));
        lemma_port_prefix(port, k + 1);
    } else {
        assert(port.take(k) =~= port);
    }
}

/// What an address is, over sequences of characters.
pub struct UrlView {
    pub url: Seq<char>,
    pub host: Seq<char>,
    pub port: Seq<char>,
    pub path: Seq<char>,
    pub searchpart: Seq<char>,
}

#[derive(Debug, Clone, PartialEq)]
pub struct Url {
    url: String,
    host: String,
    port: String,
    path: String,
    searchpart: String,
}

impl View for Url {
    type V = UrlView;

    closed spec fn view(&self) -> UrlView {
        UrlView {
            url: self.url@,
            host: self.host@,
            port: self.port@,
            path: self.path@,
            searchpart: self.searchpart@,
        }
    }
}

/// Whether `pattern` stands in `s` at position `i`.
fn matches_at(s: &Vec<char>, pattern: &Vec<char>, i: usize) -> (r: bool)
    ensures
        r == occurs_at(s@, pattern@, i as int),
{
    if pattern.len() > s.len() || i > s.len() - pattern.len() {
        return false;
    }
    let mut k: usize = 0;
    while k < pattern.len()
        invariant
            k <= pattern.len(),
            i + pattern.len() <= s.len(),
            forall|j: int| 0 <= j < k ==> s@[i + j] == pattern@[j],
        decreases pattern.len() - k,
    {
        if s[i + k] != pattern[k] {
            assert(s@.subrange(i as int, i + pattern@.len())[k as int] != pattern@[k as int]);
            return false;
        }
        k += 1;
    }
    assert(s@.subrange(i as int, i + pattern@.len()) =~= pattern@);
    true
}

/// The position of the first `c` in `s` at or after `from`.
pub(crate) fn find_from(s: &Vec<char>, c: char, from: usize) -> (r: usize)
    requires
        from <= s@.len(),
    ensures
        r == position_of(s@, c, from as int),
        from <= r <= s@.len(),
{
    let mut i = from;
    while i < s.len() && s[i] != c
        invariant
            from <= i <= s@.len(),
            position_of(s@, c, i as int) == position_of(s@, c, from as int),
        decreases s@.len() - i,
    {
        i += 1;
    }
    i
}

/// The characters of `s` from `from` up to `to`.
pub(crate) fn slice(s: &Vec<char>, from: usize, to: usize) -> (r: Vec<char>)
    requires
        from <= to <= s@.len(),
    ensures
        r@ == s@.subrange(from as int, to as int),
{
    let mut r: Vec<char> = Vec::new();
    let mut i = from;
    while i < to
        invariant
            from <= i <= to <= s@.len(),
            r@ == s@.subrange(from as int, i as int),
        decreases to - i,
    {
        r.push(s[i]);
        assert(r@ =~= s@.subrange(from as int, i + 1));
        i += 1;
    }
    r
}

impl Url {
    /// An address that has not been taken apart yet.
    pub fn new(url: String) -> (u: Self)
        ensures
            u@ == (UrlView {
                url: url@,
                host: Seq::empty(),
                port: Seq::empty(),
                path: Seq::empty(),
                searchpart: Seq::empty(),
            }),
    {
        Self {
            url,
            host: String::new(),
            port: String::new(),
            path: String::new(),
            searchpart: String::new(),
        }
    }

    /// The address as it was given.
    pub fn url(&self) -> (s: String)
        ensures
            s@ == self@.url,
    {
        self.url.clone()
    }

    pub fn host(&self) -> (s: String)
        ensures
            s@ == self@.host,
    {
        self.host.clone()
    }

    pub fn port(&self) -> (s: String)
        ensures
            s@ == self@.port,
    {
        self.port.clone()
    }

    pub fn path(&self) -> (s: String)
        ensures
            s@ == self@.path,
    {
        self.path.clone()
    }

    pub fn searchpart(&self) -> (s: String)
        ensures
            s@ == self@.searchpart,
    {
        self.searchpart.clone()
    }

    /// The port as a number, where it is one.
    pub fn port_number(&self) -> (r: Option<u16>)
        ensures
            r == port_number_of(self@.port),
    {
        let digits = chars_of(self.port.as_str());
        if digits.len() == 0 {
            return None;
        }
        let mut n: u16 = 0;
        let mut i: usize = 0;
        while i < digits.len()
            invariant
                i <= digits.len(),
                digits@ == self@.port,
                digits.len() > 0,
                i > 0 ==> port_number_of(digits@.take(i as int)) == Some(n),
                i == 0 ==> n == 0,
            decreases digits.len() - i,
        {
            let c = digits[i];
            assert(digits@.take(i + 1).last() == c);
            assert(digits@.take(i + 1).drop_last() =~= digits@.take(i as int));
            if !crate::text::char_is_digit(c) {
                proof {
                    lemma_port_prefix(digits@, i + 1);
                }
                return None;
            }
            let d = crate::text::char_digit_value(c) as u16;
            if n > (65535 - d) / 10 {
                proof {
                    lemma_port_prefix(digits@, i + 1);
                }
                return None;
            }
            n = n * 10 + d;
            i += 1;
        }
        assert(digits@.take(i as int) =~= digits@);
        Some(n)
    }

    /// Whether the address holds the scheme.
    fn is_http(&self) -> (r: bool)
        ensures
            r == contains_text(self@.url, scheme()),
    {
        let s = chars_of(self.url.as_str());
        let pattern = chars_of("http://");
        proof {
            reveal_strlit("http://");
        }
        let mut i: usize = 0;
        while i < s.len()
            invariant
                i <= s.len(),
                s@ == self@.url,
                pattern@ == scheme(),
                forall|j: int| 0 <= j < i ==> !occurs_at(s@, pattern@, j),
            decreases s.len() - i,
        {
            if matches_at(&s, &pattern, i) {
                return true;
            }
            i += 1;
        }
        assert forall|j: int| !occurs_at(s@, pattern@, j) by {
            if j >= s@.len() {
                assert(pattern@.len() == 7);
            }
        }
        false
    }

    /// The address without its scheme, as characters.
    fn rest(&self) -> (r: Vec<char>)
        ensures
            r@ == without_scheme(self@.url),
    {
        let s = chars_of(self.url.as_str());
        let pattern = chars_of("http://");
        proof {
            reveal_strlit("http://");
        }
        let mut from: usize = 0;
        let len = s.len();
        assert(s@.skip(0) =~= s@);
        while matches_at(&s, &pattern, from)
            invariant
                from <= s@.len(),
                len == s@.len(),
                pattern@ == scheme(),
                pattern@.len() == 7,
                trim_start(s@.skip(from as int), pattern@) == trim_start(s@, pattern@),
            decreases s@.len() - from,
        {
            assert(from + 7 <= len);
            assert(s@.skip(from as int).subrange(0, 7) =~= s@.subrange(from as int, from + 7));
            assert(s@.skip(from as int).skip(7) =~= s@.skip(from + 7));
            from += 7;
        }
        assert(!occurs_at(s@.skip(from as int), pattern@, 0)) by {
            if from + 7 <= len {
                assert(s@.skip(from as int).subrange(0, 7) =~= s@.subrange(
                    from as int,
                    from + 7,
                ));
            }
        }
        let r = slice(&s, from, s.len());
        assert(r@ =~= s@.skip(from as int));
        r
    }

    /// The host and port, as characters.
    fn authority(&self) -> (r: Vec<char>)
        ensures
            r@ == authority(self@.url),
    {
        let rest = self.rest();
        let end = find_from(&rest, '/', 0);
        slice(&rest, 0, end)
    }

    /// What follows the first `/`, as characters.
    fn after_slash(&self) -> (r: Option<Vec<char>>)
        ensures
            match after_first(without_scheme(self@.url), '/') {
                Some(v) => r is Some && r->Some_0@ == v,
                None => r is None,
            },
    {
        let rest = self.rest();
        let at = find_from(&rest, '/', 0);
        if at < rest.len() {
            Some(slice(&rest, at + 1, rest.len()))
        } else {
            None
        }
    }

    fn extracted_host(&self) -> (s: String)
        ensures
            s@ == host_of(self@.url),
    {
        let authority = self.authority();
        let end = find_from(&authority, ':', 0);
        string_of(&slice(&authority, 0, end))
    }

    fn extract_port(&self) -> (s: String)
        ensures
            s@ == port_of(self@.url),
    {
        let authority = self.authority();
        let at = find_from(&authority, ':', 0);
        if at < authority.len() {
            string_of(&slice(&authority, at + 1, authority.len()))
        } else {
            "80".to_owned()
        }
    }

    fn extract_path(&self) -> (s: String)
        ensures
            s@ == path_of(self@.url),
    {
        match self.after_slash() {
            Some(rest) => {
                let end = find_from(&rest, '?', 0);
                string_of(&slice(&rest, 0, end))
            },
            None => String::new(),
        }
    }

    fn extract_searchpart(&self) -> (s: String)
        ensures
            s@ == searchpart_of(self@.url),
    {
        match self.after_slash() {
            Some(rest) => {
                let at = find_from(&rest, '?', 0);
                if at < rest.len() {
                    string_of(&slice(&rest, at + 1, rest.len()))
                } else {
                    String::new()
                }
            },
            None => String::new(),
        }
    }

    /// Takes the address apart. An address that does not hold the scheme is
    /// refused and left as it is; any other address has its four parts set,
    /// and a copy of it is returned.
    pub fn parse(&mut self) -> (r: Result<Self, String>)
        ensures
            final(self)@.url == old(self)@.url,
            contains_text(old(self)@.url, scheme()) ==> r is Ok && r->Ok_0@ == final(self)@
                && final(self)@ == (UrlView {
                url: old(self)@.url,
                host: host_of(old(self)@.url),
                port: port_of(old(self)@.url),
                path: path_of(old(self)@.url),
                searchpart: searchpart_of(old(self)@.url),
            }),
            !contains_text(old(self)@.url, scheme()) ==> r is Err && r->Err_0@
                == "Only HTTP scheme is supported."@ && final(self)@ == old(self)@,
    {
        if !self.is_http() {
            return Err("Only HTTP scheme is supported.".to_owned());
        }
        self.host = self.extracted_host();
        self.port = self.extract_port();
        self.path = self.extract_path();
        self.searchpart = self.extract_searchpart();
        Ok(
            Url {
                url: self.url.clone(),
                host: self.host.clone(),
                port: self.port.clone(),
                path: self.path.clone(),
                searchpart: self.searchpart.clone(),
            },
        )
    }
}

} // verus!
