//! Page-title extraction from a response body.
//!
//! The body's bytes are decoded leniently to text, and the text is searched
//! for the first title element, case-insensitively: an opening `<title`
//! followed by attribute characters up to a `>`, then the shortest stretch of
//! text without a line break that ends at a closing `</title>`. When no such
//! element exists the title is the fixed placeholder text.

use vstd::prelude::*;

verus! {

use vstd::string::StrSliceExecFns;
use vstd::string::StringExecFns;
use vstd::utf8::decode_utf8;
use vstd::utf8::valid_utf8;

/// An opening `<title` tag starts at `i`, matched case-insensitively.
pub open spec fn is_title_open_at(s: Seq<char>, i: int) -> bool {
    &&& 0 <= i
    &&& i + 6 <= s.len()
    &&& s[i] == '<'
    &&& (s[i + 1] == 't' || s[i + 1] == 'T')
    &&& (s[i + 2] == 'i' || s[i + 2] == 'I')
    &&& (s[i + 3] == 't' || s[i + 3] == 'T')
    &&& (s[i + 4] == 'l' || s[i + 4] == 'L')
    &&& (s[i + 5] == 'e' || s[i + 5] == 'E')
}

/// A closing `</title>` tag starts at `i`, matched case-insensitively.
pub open spec fn is_title_close_at(s: Seq<char>, i: int) -> bool {
    &&& 0 <= i
    &&& i + 8 <= s.len()
    &&& s[i] == '<'
    &&& s[i + 1] == '/'
    &&& (s[i + 2] == 't' || s[i + 2] == 'T')
    &&& (s[i + 3] == 'i' || s[i + 3] == 'I')
    &&& (s[i + 4] == 't' || s[i + 4] == 'T')
    &&& (s[i + 5] == 'l' || s[i + 5] == 'L')
    &&& (s[i + 6] == 'e' || s[i + 6] == 'E')
    &&& s[i + 7] == '>'
}

/// Position of the first `>` at or after `i`, closing the opening tag.
pub open spec fn find_gt(s: Seq<char>, i: int) -> Option<int>
    decreases s.len() - i,
{
    if i < 0 || i >= s.len() {
        None
    } else if s[i] == '>' {
        Some(i)
    } else {
        find_gt(s, i + 1)
    }
}

/// Position of the first closing tag at or after `i` that is reachable
/// without crossing a line break; the inner text may not span lines.
pub open spec fn find_close(s: Seq<char>, i: int) -> Option<int>
    decreases s.len() - i,
{
    if i < 0 || i >= s.len() {
        None
    } else if is_title_close_at(s, i) {
        Some(i)
    } else if s[i] == '\n' {
        None
    } else {
        find_close(s, i + 1)
    }
}

/// The inner-text bounds of a complete title element whose opening tag
/// starts at `i`, if one starts there.
pub open spec fn match_at(s: Seq<char>, i: int) -> Option<(int, int)> {
    if !is_title_open_at(s, i) {
        None
    } else {
        match find_gt(s, i + 6) {
            None => None,
            Some(j) => match find_close(s, j + 1) {
                None => None,
                Some(k) => Some((j + 1, k)),
            },
        }
    }
}

/// Bounds of the first complete title element starting at or after `i`.
pub open spec fn first_match(s: Seq<char>, i: int) -> Option<(int, int)>
    decreases s.len() - i,
{
    if i < 0 || i >= s.len() {
        None
    } else if match_at(s, i) is Some {
        match_at(s, i)
    } else {
        first_match(s, i + 1)
    }
}

/// The placeholder reported when no title element is found.
pub open spec fn no_title_text() -> Seq<char> {
    "No Title Found"@
}

/// The title of a page text: the inner text of its first title element, or
/// the placeholder.
pub open spec fn spec_title(s: Seq<char>) -> Seq<char> {
    match first_match(s, 0) {
        Some(m) => s.subrange(m.0, m.1),
        None => no_title_text(),
    }
}

proof fn lemma_find_gt_none(s: Seq<char>, a: int)
    requires
        0 <= a,
        forall|x: int| a <= x < s.len() ==> s[x] != '>',
    ensures
        find_gt(s, a) is None,
    decreases s.len() - a,
{
    if a < s.len() {
        lemma_find_gt_none(s, a + 1);
    }
}

proof fn lemma_find_gt_some(s: Seq<char>, a: int, j: int)
    requires
        0 <= a <= j < s.len(),
        s[j] == '>',
        forall|x: int| a <= x < j ==> s[x] != '>',
    ensures
        find_gt(s, a) == Some(j),
    decreases j - a,
{
    if a < j {
        lemma_find_gt_some(s, a + 1, j);
    }
}

proof fn lemma_find_close_none(s: Seq<char>, a: int, k: int)
    requires
        0 <= a <= k <= s.len(),
        forall|x: int| a <= x < k ==> !is_title_close_at(s, x) && s[x] != '\n',
        k < s.len() ==> s[k] == '\n' && !is_title_close_at(s, k),
    ensures
        find_close(s, a) is None,
    decreases k - a,
{
    if a < k {
        lemma_find_close_none(s, a + 1, k);
    }
}

proof fn lemma_find_close_some(s: Seq<char>, a: int, k: int)
    requires
        0 <= a <= k < s.len(),
        is_title_close_at(s, k),
        forall|x: int| a <= x < k ==> !is_title_close_at(s, x) && s[x] != '\n',
    ensures
        find_close(s, a) == Some(k),
    decreases k - a,
{
    if a < k {
        lemma_find_close_some(s, a + 1, k);
    }
}

proof fn lemma_first_match_from(s: Seq<char>, i: int)
    requires
        0 <= i,
        forall|x: int| 0 <= x < i ==> match_at(s, x) is None,
    ensures
        first_match(s, 0) == first_match(s, i),
    decreases i,
{
    if i > 0 {
        lemma_first_match_from(s, i - 1);
    }
}

fn open_tag_at(s: &str, n: usize, i: usize) -> (b: bool)
    requires
        n == s@.len(),
        i < n,
    ensures
        b == is_title_open_at(s@, i as int),
{
    if n - i < 6 {
        return false;
    }
    let c0 = s.get_char(i);
    let c1 = s.get_char(i + 1);
    let c2 = s.get_char(i + 2);
    let c3 = s.get_char(i + 3);
    let c4 = s.get_char(i + 4);
    let c5 = s.get_char(i + 5);
    c0 == '<' && (c1 == 't' || c1 == 'T') && (c2 == 'i' || c2 == 'I') && (c3 == 't' || c3 == 'T')
        && (c4 == 'l' || c4 == 'L') && (c5 == 'e' || c5 == 'E')
}

fn close_tag_at(s: &str, n: usize, i: usize) -> (b: bool)
    requires
        n == s@.len(),
        i < n,
    ensures
        b == is_title_close_at(s@, i as int),
{
    if n - i < 8 {
        return false;
    }
    let c0 = s.get_char(i);
    let c1 = s.get_char(i + 1);
    let c2 = s.get_char(i + 2);
    let c3 = s.get_char(i + 3);
    let c4 = s.get_char(i + 4);
    let c5 = s.get_char(i + 5);
    let c6 = s.get_char(i + 6);
    let c7 = s.get_char(i + 7);
    c0 == '<' && c1 == '/' && (c2 == 't' || c2 == 'T') && (c3 == 'i' || c3 == 'I') && (c4 == 't'
        || c4 == 'T') && (c5 == 'l' || c5 == 'L') && (c6 == 'e' || c6 == 'E') && c7 == '>'
}

/// Title of an already decoded page text.
pub fn extract_title_str(s: &str) -> (res: String)
    ensures
        res@ == spec_title(s@),
{
    let n: usize = s.unicode_len();
    let mut i: usize = 0;
    while i < n
        invariant
            n == s@.len(),
            i <= n,
            forall|x: int| 0 <= x < i ==> match_at(s@, x) is None,
        decreases n - i,
    {
        if open_tag_at(s, n, i) {
            let mut j: usize = i + 6;
            while j < n
                invariant
                    n == s@.len(),
                    i + 6 <= j <= n,
                    forall|x: int| i + 6 <= x < j ==> s@[x] != '>',
                ensures
                    i + 6 <= j <= n,
                    forall|x: int| i + 6 <= x < j ==> s@[x] != '>',
                    j < n ==> s@[j as int] == '>',
                decreases n - j,
            {
                if s.get_char(j) == '>' {
                    break ;
                }
                j = j + 1;
            }
            if j == n {
                proof {
                    lemma_find_gt_none(s@, i + 6);
                }
            } else {
                proof {
                    lemma_find_gt_some(s@, i + 6, j as int);
                }
                let mut k: usize = j + 1;
                let mut closed: bool = false;
                while k < n
                    invariant_except_break
                        !closed,
                    invariant
                        n == s@.len(),
                        j + 1 <= k <= n,
                        j < n,
                        forall|x: int|
                            j + 1 <= x < k ==> !is_title_close_at(s@, x) && s@[x] != '\n',
                    ensures
                        j + 1 <= k <= n,
                        forall|x: int|
                            j + 1 <= x < k ==> !is_title_close_at(s@, x) && s@[x] != '\n',
                        closed ==> k < n && is_title_close_at(s@, k as int),
                        !closed ==> k == n || (s@[k as int] == '\n' && !is_title_close_at(
                            s@,
                            k as int,
                        )),
                    decreases n - k,
                {
                    if close_tag_at(s, n, k) {
                        closed = true;
                        break ;
                    }
                    if s.get_char(k) == '\n' {
                        break ;
                    }
                    k = k + 1;
                }
                if closed {
                    proof {
                        lemma_find_close_some(s@, j + 1, k as int);
                        lemma_first_match_from(s@, i as int);
                    }
                    let inner: &str = s.substring_char(j + 1, k);
                    return inner.to_owned();
                } else {
                    proof {
                        lemma_find_close_none(s@, j + 1, k as int);
                    }
                }
            }
        }
        i = i + 1;
    }
    proof {
        lemma_first_match_from(s@, n as int);
    }
    String::from_str("No Title Found")
}

/// What the lenient byte-to-text decoding returns; the decoding depends on
/// the bytes alone.
pub uninterp spec fn lossy_of(bytes: Seq<u8>) -> Seq<char>;

/// Relies on `String::from_utf8_lossy`: its result is a function of the
/// bytes alone, and a body that is valid UTF-8 decodes exactly; invalid
/// sequences become replacement characters, never an error.
#[verifier::external_body]
fn utf8_lossy(bytes: &[u8]) -> (r: String)
    ensures
        r@ == lossy_of(bytes@),
        valid_utf8(bytes@) ==> r@ == decode_utf8(bytes@),
{
    String::from_utf8_lossy(bytes).into_owned()
}

/// Title of a raw response body: the bytes are decoded leniently, so
/// malformed UTF-8 never fails, and the decoded text's first title element
/// is extracted.
pub fn extract_title(body: &[u8]) -> (res: String)
    ensures
        res@ == spec_title(lossy_of(body@)),
        valid_utf8(body@) ==> res@ == spec_title(decode_utf8(body@)),
{
    let text = utf8_lossy(body);
    extract_title_str(text.as_str())
}

} // verus!
