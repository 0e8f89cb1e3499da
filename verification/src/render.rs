//! Scan results and their rendering: the endpoint text `scheme://ip:port`
//! and the output line `[status] title -> endpoint`, with the status class
//! that drives the (purely cosmetic) coloring chosen by the caller.

use vstd::prelude::*;

verus! {

use vstd::string::StrSliceExecFns;
use vstd::string::StringExecFns;
use crate::title::lossy_of;
use crate::title::spec_title;
use crate::title::extract_title;

/// The scheme of a probe attempt.
#[derive(Clone, Copy, PartialEq, Eq, Structural, Debug)]
pub enum Scheme {
    Http,
    Https,
}

/// The character of one decimal digit.
pub open spec fn digit_char(d: int) -> char {
    if d == 0 {
        '0'
    } else if d == 1 {
        '1'
    } else if d == 2 {
        '2'
    } else if d == 3 {
        '3'
    } else if d == 4 {
        '4'
    } else if d == 5 {
        '5'
    } else if d == 6 {
        '6'
    } else if d == 7 {
        '7'
    } else if d == 8 {
        '8'
    } else {
        '9'
    }
}

/// The decimal digits of a number, most significant first.
pub open spec fn dec_chars(n: int) -> Seq<char>
    recommends
        n >= 0,
    decreases n,
{
    if n < 10 {
        seq![digit_char(n)]
    } else {
        dec_chars(n / 10) + seq![digit_char(n % 10)]
    }
}

/// The dotted-quad text of an address, highest octet first.
pub open spec fn ip_chars(ip: u32) -> Seq<char> {
    dec_chars(((ip >> 24) & 0xFF) as int) + seq!['.'] + dec_chars(((ip >> 16) & 0xFF) as int)
        + seq!['.'] + dec_chars(((ip >> 8) & 0xFF) as int) + seq!['.'] + dec_chars((ip & 0xFF) as int)
}

/// The text of a scheme.
pub open spec fn scheme_chars(s: Scheme) -> Seq<char> {
    match s {
        Scheme::Http => seq!['h', 't', 't', 'p'],
        Scheme::Https => seq!['h', 't', 't', 'p', 's'],
    }
}

/// The endpoint text `scheme://ip:port`.
pub open spec fn endpoint_chars(scheme: Scheme, ip: u32, port: u16) -> Seq<char> {
    scheme_chars(scheme) + seq![':', '/', '/'] + ip_chars(ip) + seq![':'] + dec_chars(port as int)
}

/// A white-space character, as the trimming of the title understands it.
pub open spec fn is_space_char(c: char) -> bool {
    ||| c == ' '
    ||| c == '\t'
    ||| c == '\n'
    ||| c == '\r'
    ||| c == '\u{000B}'
    ||| c == '\u{000C}'
    ||| c == '\u{0085}'
    ||| c == '\u{00A0}'
    ||| c == '\u{1680}'
    ||| c == '\u{2000}'
    ||| c == '\u{2001}'
    ||| c == '\u{2002}'
    ||| c == '\u{2003}'
    ||| c == '\u{2004}'
    ||| c == '\u{2005}'
    ||| c == '\u{2006}'
    ||| c == '\u{2007}'
    ||| c == '\u{2008}'
    ||| c == '\u{2009}'
    ||| c == '\u{200A}'
    ||| c == '\u{2028}'
    ||| c == '\u{2029}'
    ||| c == '\u{202F}'
    ||| c == '\u{205F}'
    ||| c == '\u{3000}'
}

/// The text with its leading white space removed.
pub open spec fn trim_front(s: Seq<char>) -> Seq<char>
    decreases s.len(),
{
    if s.len() > 0 && is_space_char(s[0]) {
        trim_front(s.drop_first())
    } else {
        s
    }
}

/// The text with its trailing white space removed.
pub open spec fn trim_back(s: Seq<char>) -> Seq<char>
    decreases s.len(),
{
    if s.len() > 0 && is_space_char(s[s.len() - 1]) {
        trim_back(s.drop_last())
    } else {
        s
    }
}

/// The text with white space removed at both ends.
pub open spec fn trimmed(s: Seq<char>) -> Seq<char> {
    trim_back(trim_front(s))
}

/// The coarse class of a status code, driving the output color.
#[derive(Clone, Copy, PartialEq, Eq, Structural, Debug)]
pub enum StatusClass {
    Success,
    Redirect,
    ClientError,
    ServerError,
    Other,
}

/// The class of each status code: one of the hundreds 2xx to 5xx, or other.
pub open spec fn spec_status_class(status: u16) -> StatusClass {
    if 200 <= status && status <= 299 {
        StatusClass::Success
    } else if 300 <= status && status <= 399 {
        StatusClass::Redirect
    } else if 400 <= status && status <= 499 {
        StatusClass::ClientError
    } else if 500 <= status && status <= 599 {
        StatusClass::ServerError
    } else {
        StatusClass::Other
    }
}

/// Classify a status code for coloring.
pub fn status_class(status: u16) -> (c: StatusClass)
    ensures
        c == spec_status_class(status),
{
    if 200 <= status && status <= 299 {
        StatusClass::Success
    } else if 300 <= status && status <= 399 {
        StatusClass::Redirect
    } else if 400 <= status && status <= 499 {
        StatusClass::ClientError
    } else if 500 <= status && status <= 599 {
        StatusClass::ServerError
    } else {
        StatusClass::Other
    }
}

fn append_digit(out: &mut String, d: u32)
    requires
        d < 10,
    ensures
        final(out)@ == old(out)@ + seq![digit_char(d as int)],
{
    if d == 0 {
        proof {
            reveal_strlit("0");
        }
        out.append("0");
        assert(out@ =~= old(out)@ + seq![digit_char(d as int)]);
    } else if d == 1 {
        proof {
            reveal_strlit("1");
        }
        out.append("1");
        assert(out@ =~= old(out)@ + seq![digit_char(d as int)]);
    } else if d == 2 {
        proof {
            reveal_strlit("2");
        }
        out.append("2");
        assert(out@ =~= old(out)@ + seq![digit_char(d as int)]);
    } else if d == 3 {
        proof {
            reveal_strlit("3");
        }
        out.append("3");
        assert(out@ =~= old(out)@ + seq![digit_char(d as int)]);
    } else if d == 4 {
        proof {
            reveal_strlit("4");
        }
        out.append("4");
        assert(out@ =~= old(out)@ + seq![digit_char(d as int)]);
    } else if d == 5 {
        proof {
            reveal_strlit("5");
        }
        out.append("5");
        assert(out@ =~= old(out)@ + seq![digit_char(d as int)]);
    } else if d == 6 {
        proof {
            reveal_strlit("6");
        }
        out.append("6");
        assert(out@ =~= old(out)@ + seq![digit_char(d as int)]);
    } else if d == 7 {
        proof {
            reveal_strlit("7");
        }
        out.append("7");
        assert(out@ =~= old(out)@ + seq![digit_char(d as int)]);
    } else if d == 8 {
        proof {
            reveal_strlit("8");
        }
        out.append("8");
        assert(out@ =~= old(out)@ + seq![digit_char(d as int)]);
    } else {
        proof {
            reveal_strlit("9");
        }
        out.append("9");
        assert(out@ =~= old(out)@ + seq![digit_char(d as int)]);
    }
}

/// Append the decimal digits of a number.
pub fn push_decimal(out: &mut String, n: u32)
    ensures
        final(out)@ == old(out)@ + dec_chars(n as int),
    decreases n,
{
    if n >= 10 {
        push_decimal(out, n / 10);
    }
    append_digit(out, n % 10);
    assert(out@ =~= old(out)@ + dec_chars(n as int));
}

/// Append the dotted-quad text of an address.
pub fn push_ip(out: &mut String, ip: u32)
    ensures
        final(out)@ == old(out)@ + ip_chars(ip),
{
    proof {
        reveal_strlit(".");
    }
    push_decimal(out, (ip >> 24) & 0xFF);
    out.append(".");
    push_decimal(out, (ip >> 16) & 0xFF);
    out.append(".");
    push_decimal(out, (ip >> 8) & 0xFF);
    out.append(".");
    push_decimal(out, ip & 0xFF);
    assert("."@ =~= seq!['.']);
    assert(out@ =~= old(out)@ + ip_chars(ip));
}

/// The scheme's text.
pub fn scheme_str(s: Scheme) -> (r: &'static str)
    ensures
        r@ == scheme_chars(s),
{
    match s {
        Scheme::Http => {
            proof {
                reveal_strlit("http");
            }
            assert("http"@ =~= scheme_chars(Scheme::Http));
            "http"
        },
        Scheme::Https => {
            proof {
                reveal_strlit("https");
            }
            assert("https"@ =~= scheme_chars(Scheme::Https));
            "https"
        },
    }
}

/// The endpoint text `scheme://ip:port`.
pub fn endpoint_string(scheme: Scheme, ip: u32, port: u16) -> (r: String)
    ensures
        r@ == endpoint_chars(scheme, ip, port),
{
    let mut out = String::new();
    out.append(scheme_str(scheme));
    proof {
        reveal_strlit("://");
        reveal_strlit(":");
    }
    out.append("://");
    push_ip(&mut out, ip);
    out.append(":");
    push_decimal(&mut out, port as u32);
    assert("://"@ =~= seq![':', '/', '/']);
    assert(":"@ =~= seq![':']);
    assert(out@ =~= endpoint_chars(scheme, ip, port));
    out
}

fn is_space(c: char) -> (b: bool)
    ensures
        b == is_space_char(c),
{
    c == ' ' || c == '\t' || c == '\n' || c == '\r' || c == '\u{000B}' || c == '\u{000C}' || c
        == '\u{0085}' || c == '\u{00A0}' || c == '\u{1680}' || c == '\u{2000}' || c == '\u{2001}'
        || c == '\u{2002}' || c == '\u{2003}' || c == '\u{2004}' || c == '\u{2005}' || c
        == '\u{2006}' || c == '\u{2007}' || c == '\u{2008}' || c == '\u{2009}' || c == '\u{200A}'
        || c == '\u{2028}' || c == '\u{2029}' || c == '\u{202F}' || c == '\u{205F}' || c
        == '\u{3000}'
}

proof fn lemma_trim_front_skip(s: Seq<char>, a: int)
    requires
        0 <= a <= s.len(),
        forall|x: int| 0 <= x < a ==> is_space_char(s[x]),
    ensures
        trim_front(s) == trim_front(s.subrange(a, s.len() as int)),
    decreases a,
{
    if a == 0 {
        assert(s.subrange(0, s.len() as int) =~= s);
    } else {
        lemma_trim_front_skip(s, a - 1);
        let t = s.subrange(a - 1, s.len() as int);
        assert(t.len() > 0 && is_space_char(t[0]));
        assert(t.drop_first() =~= s.subrange(a, s.len() as int));
    }
}

proof fn lemma_trim_back_skip(s: Seq<char>, b: int)
    requires
        0 <= b <= s.len(),
        forall|x: int| b <= x < s.len() ==> is_space_char(s[x]),
    ensures
        trim_back(s) == trim_back(s.subrange(0, b)),
    decreases s.len() - b,
{
    if b == s.len() {
        assert(s.subrange(0, s.len() as int) =~= s);
    } else {
        let t = s.subrange(0, b + 1);
        lemma_trim_back_skip(s, b + 1);
        assert(t.len() > 0 && is_space_char(t[t.len() - 1]));
        assert(t.drop_last() =~= s.subrange(0, b));
    }
}

/// The argument without white space at either end.
pub fn trim_str(s: &str) -> (r: &str)
    ensures
        r@ == trimmed(s@),
{
    let n: usize = s.unicode_len();
    let mut a: usize = 0;
    while a < n
        invariant
            n == s@.len(),
            a <= n,
            forall|x: int| 0 <= x < a ==> is_space_char(s@[x]),
        ensures
            a <= n,
            forall|x: int| 0 <= x < a ==> is_space_char(s@[x]),
            a < n ==> !is_space_char(s@[a as int]),
        decreases n - a,
    {
        if !is_space(s.get_char(a)) {
            break ;
        }
        a = a + 1;
    }
    proof {
        lemma_trim_front_skip(s@, a as int);
    }
    let ghost t = s@.subrange(a as int, n as int);
    assert(trim_front(s@) == t);
    let mut b: usize = n;
    while b > a
        invariant
            n == s@.len(),
            a <= b <= n,
            forall|x: int| b <= x < n ==> is_space_char(s@[x]),
        ensures
            a <= b <= n,
            forall|x: int| b <= x < n ==> is_space_char(s@[x]),
            b > a ==> !is_space_char(s@[b - 1]),
        decreases b,
    {
        if !is_space(s.get_char(b - 1)) {
            break ;
        }
        b = b - 1;
    }
    proof {
        assert(forall|x: int| (b - a) <= x < t.len() ==> is_space_char(t[x]));
        lemma_trim_back_skip(t, b - a);
        assert(t.subrange(0, b - a) =~= s@.subrange(a as int, b as int));
        if b > a {
            let u = s@.subrange(a as int, b as int);
            assert(!is_space_char(u[u.len() - 1]));
        }
    }
    let r = s.substring_char(a, b);
    assert(r@ == trimmed(s@));
    r
}

/// One successfully fingerprinted endpoint: where it answered, with what
/// status, and under what title. Never altered once produced.
#[derive(Debug)]
pub struct ScanResult {
    pub scheme: Scheme,
    pub addr: u32,
    pub port: u16,
    pub status: u16,
    pub title: String,
}

impl ScanResult {
    /// The text of the result's output line.
    pub open spec fn line_view(&self) -> Seq<char> {
        seq!['['] + dec_chars(self.status as int) + seq![']', ' '] + trimmed(self.title@) + seq![
            ' ',
            '-',
            '>',
            ' ',
        ] + endpoint_chars(self.scheme, self.addr, self.port)
    }

    /// Build a result from a successful response: the title is extracted
    /// from the raw body.
    pub fn new(scheme: Scheme, addr: u32, port: u16, status: u16, body: &[u8]) -> (r: ScanResult)
        ensures
            r.scheme == scheme,
            r.addr == addr,
            r.port == port,
            r.status == status,
            r.title@ == spec_title(lossy_of(body@)),
    {
        ScanResult { scheme, addr, port, status, title: extract_title(body) }
    }

    /// The endpoint text `scheme://ip:port`.
    pub fn endpoint(&self) -> (r: String)
        ensures
            r@ == endpoint_chars(self.scheme, self.addr, self.port),
    {
        endpoint_string(self.scheme, self.addr, self.port)
    }

    /// The output line `[status] title -> endpoint`, the title trimmed.
    pub fn render_line(&self) -> (r: String)
        ensures
            r@ == self.line_view(),
    {
        let mut out = String::new();
        proof {
            reveal_strlit("[");
            reveal_strlit("] ");
            reveal_strlit(" -> ");
        }
        out.append("[");
        push_decimal(&mut out, self.status as u32);
        out.append("] ");
        out.append(trim_str(self.title.as_str()));
        out.append(" -> ");
        let ep = endpoint_string(self.scheme, self.addr, self.port);
        out.append(ep.as_str());
        assert("["@ =~= seq!['[']);
        assert("] "@ =~= seq![']', ' ']);
        assert(" -> "@ =~= seq![' ', '-', '>', ' ']);
        assert(out@ =~= self.line_view());
        out
    }
}

} // verus!
