//! Framing of the minimal HTTP/1.1 exchange with the local DevTools endpoint.

use vstd::prelude::*;
use vstd::string::StringExecFns;
use vstd::utf8::{decode_utf8, encode_utf8, encode_utf8_decode_utf8, valid_utf8};
use crate::text::{
    chars_eq_ignore_ascii_case, chars_of, decimal, push_decimal, contains_seq, eq_ignore_ascii_case, find_char, index_of, lemma_index_of,
    occurs_at, parse_unsigned, parse_unsigned_chars, split_chars, split_on, subrange_chars, trim,
    trim_chars, views,
};

verus! {

/// The largest response, in bytes, that is read from the DevTools endpoint.
pub const MAX_RESPONSE: usize = 4194304;

/// The first position at which `needle` occurs in `haystack`, if any.
#[verifier::opaque]
pub open spec fn first_occurrence<T>(haystack: Seq<T>, needle: Seq<T>) -> Option<int> {
    if contains_seq(haystack, needle) {
        Some(choose|i: int| occurs_at(haystack, needle, i) && forall|j: int| 0 <= j < i ==> !occurs_at(haystack, needle, j))
    } else {
        None
    }
}

/// Where a search that stopped at `i` places the first occurrence.
proof fn lemma_first_occurrence_is<T>(haystack: Seq<T>, needle: Seq<T>, i: int)
    requires
        occurs_at(haystack, needle, i),
        forall|j: int| 0 <= j < i ==> !occurs_at(haystack, needle, j),
    ensures
        first_occurrence(haystack, needle) == Some(i),
{
    reveal(first_occurrence);
    let k = choose|k: int| occurs_at(haystack, needle, k) && forall|j: int| 0 <= j < k ==> !occurs_at(haystack, needle, j);
    assert(occurs_at(haystack, needle, k));
    if k < i {
        assert(!occurs_at(haystack, needle, k));
    }
    if i < k {
        assert(!occurs_at(haystack, needle, i));
    }
}

/// The position of the first occurrence of `needle` in `haystack`.
pub fn find_subslice(haystack: &[u8], needle: &[u8]) -> (r: Option<usize>)
    requires
        needle@.len() > 0,
    ensures
        match r {
            Some(i) => first_occurrence(haystack@, needle@) == Some(i as int) && i + needle@.len()
                <= haystack@.len(),
            None => first_occurrence(haystack@, needle@) is None,
        },
{
    reveal(first_occurrence);
    let n = haystack.len();
    let m = needle.len();
    if m > n {
        proof {
            assert forall|j: int| !occurs_at(haystack@, needle@, j) by {}
        }
        return None;
    }
    let last = n - m;
    let mut i: usize = 0;
    loop
        invariant_except_break
            i <= last,
            n == haystack@.len(),
            m == needle@.len(),
            last + m == n,
            forall|j: int| 0 <= j < i ==> !occurs_at(haystack@, needle@, j),
        ensures
            forall|j: int| 0 <= j <= last ==> !occurs_at(haystack@, needle@, j),
        decreases last - i,
    {
        let mut k: usize = 0;
        let mut matched = true;
        while k < m
            invariant
                k <= m,
                i <= last,
                n == haystack@.len(),
                m == needle@.len(),
                last + m == n,
                matched ==> forall|t: int| 0 <= t < k ==> haystack@[i + t] == needle@[t],
                !matched ==> !occurs_at(haystack@, needle@, i as int),
            decreases m - k,
        {
            if matched && haystack[i + k] != needle[k] {
                proof {
                    assert(haystack@.subrange(i as int, i + m)[k as int] != needle@[k as int]);
                }
                matched = false;
            }
            k = k + 1;
        }
        if matched {
            proof {
                assert(haystack@.subrange(i as int, i + m) =~= needle@);
                lemma_first_occurrence_is(haystack@, needle@, i as int);
            }
            return Some(i);
        }
        if i == last {
            break;
        }
        i = i + 1;
    }
    proof {
        assert forall|j: int| !occurs_at(haystack@, needle@, j) by {
            if 0 <= j && j + m <= n {
                assert(j <= last);
            }
        }
    }
    None
}


/// The header name `content-length`.
pub open spec fn content_length_name() -> Seq<char> {
    seq!['c', 'o', 'n', 't', 'e', 'n', 't', '-', 'l', 'e', 'n', 'g', 't', 'h']
}

/// The value of `line` when it is a `Content-Length` header: the text after its first `:`,
/// provided that the text before it, trimmed, is `content-length` in any ASCII case.
pub open spec fn content_length_value(line: Seq<char>) -> Option<Seq<char>> {
    match index_of(line, ':') {
        Some(k) => if eq_ignore_ascii_case(trim(line.take(k)), content_length_name()) {
            Some(line.skip(k + 1))
        } else {
            None
        },
        None => None,
    }
}

/// The length that the first `Content-Length` header among `lines` declares: its trimmed
/// value read as a `usize`, or nothing when that value is no such number.
pub open spec fn content_length_from(lines: Seq<Seq<char>>) -> Option<nat>
    decreases lines.len(),
{
    if lines.len() == 0 {
        None
    } else {
        match content_length_value(lines[0]) {
            Some(v) => parse_unsigned(trim(v), usize::MAX as nat),
            None => content_length_from(lines.drop_first()),
        }
    }
}

/// The length that the header text declares with its first `Content-Length` line.
pub open spec fn content_length(text: Seq<char>) -> Option<nat> {
    content_length_from(split_on(text, '\n'))
}

/// The length that the header bytes declare: nothing unless they are valid UTF-8.
pub open spec fn content_length_of_bytes(headers: Seq<u8>) -> Option<nat> {
    if valid_utf8(headers) {
        content_length(decode_utf8(headers))
    } else {
        None
    }
}

/// The length that the first `Content-Length` header line of `text` declares.
pub fn content_length_in(text: &str) -> (r: Option<usize>)
    ensures
        match r {
            Some(v) => content_length(text@) == Some(v as nat),
            None => content_length(text@) is None,
        },
{
    let cs = chars_of(text);
    let lines = split_chars(&cs, '\n');
    let name: Vec<char> = vec!['c', 'o', 'n', 't', 'e', 'n', 't', '-', 'l', 'e', 'n', 'g', 't', 'h'];
    proof {
        assert(name@ == content_length_name());
        assert(views(lines@).skip(0) == views(lines@));
    }
    let mut i: usize = 0;
    while i < lines.len()
        invariant
            i <= lines@.len(),
            name@ == content_length_name(),
            content_length(text@) == content_length_from(views(lines@).skip(i as int)),
            views(lines@) == split_on(text@, '\n'),
        decreases lines@.len() - i,
    {
        let line = &lines[i];
        let ghost rest = views(lines@).skip(i as int);
        proof {
            assert(rest[0] == line@);
            assert(rest.drop_first() == views(lines@).skip(i + 1));
        }
        match find_char(line, ':') {
            Some(k) => {
                proof {
                    lemma_index_of(line@, ':');
                }
                let before = subrange_chars(line, 0, k);
                let key = trim_chars(&before);
                proof {
                    assert(before@ == line@.take(k as int));
                }
                if chars_eq_ignore_ascii_case(&key, &name) {
                    let after = subrange_chars(line, k + 1, line.len());
                    let value = trim_chars(&after);
                    proof {
                        assert(after@ == line@.skip(k + 1));
                    }
                    return parse_unsigned_chars(&value, usize::MAX);
                }
            },
            None => {},
        }
        i = i + 1;
    }
    None
}

/// The length that the first `Content-Length` line of the header bytes declares; nothing
/// when the bytes are not UTF-8 or hold no such line.
pub fn parse_content_length(headers: &[u8]) -> (r: Option<usize>)
    ensures
        match r {
            Some(v) => content_length_of_bytes(headers@) == Some(v as nat),
            None => content_length_of_bytes(headers@) is None,
        },
{
    match str_from_utf8(headers) {
        Some(text) => {
            proof {
                encode_utf8_decode_utf8(text@);
            }
            content_length_in(text)
        },
        None => None,
    }
}

/// `std::str::from_utf8`: the text that the bytes encode, when they are valid UTF-8.
/// The standard library documents that it fails exactly on invalid UTF-8 and that the
/// text it returns is made of the given bytes.
#[verifier::external_body]
fn str_from_utf8(b: &[u8]) -> (r: Option<&str>)
    ensures
        r is Some <==> valid_utf8(b@),
        r matches Some(s) ==> encode_utf8(s@) == b@,
{
    std::str::from_utf8(b).ok()
}

/// The blank line that ends the response head: `\r\n\r\n`.
pub open spec fn head_end() -> Seq<u8> {
    seq![13u8, 10u8, 13u8, 10u8]
}

/// The body of a response that is already complete: the response head has ended, it
/// declares a length, and at least that many bytes follow; the body is those bytes.
pub open spec fn complete_body(raw: Seq<u8>) -> Option<Seq<u8>> {
    match first_occurrence(raw, head_end()) {
        Some(h) => match content_length_of_bytes(raw.take(h)) {
            Some(len) => if raw.len() - (h + 4) >= len {
                Some(raw.subrange(h + 4, h + 4 + len))
            } else {
                None
            },
            None => None,
        },
        None => None,
    }
}

/// The body of a response whose connection has closed: everything after the end of
/// the head, or nothing when the head never ended.
pub open spec fn body_at_close(raw: Seq<u8>) -> Seq<u8> {
    match first_occurrence(raw, head_end()) {
        Some(h) => raw.skip(h + 4),
        None => Seq::empty(),
    }
}

/// The bytes of an HTTP response received so far.
pub struct ResponseBuffer {
    raw: Vec<u8>,
}

impl View for ResponseBuffer {
    type V = Seq<u8>;

    closed spec fn view(&self) -> Seq<u8> {
        self.raw@
    }
}

impl ResponseBuffer {
    /// A buffer that holds nothing yet.
    pub fn new() -> (b: Self)
        ensures
            b@ == Seq::<u8>::empty(),
    {
        ResponseBuffer { raw: Vec::new() }
    }

    /// The number of bytes received so far.
    pub fn len(&self) -> (n: usize)
        ensures
            n == self@.len(),
    {
        self.raw.len()
    }

    /// Appends a chunk that was read from the connection; tells whether the response is
    /// still within `MAX_RESPONSE` bytes.
    pub fn push_chunk(&mut self, chunk: &[u8]) -> (within: bool)
        ensures
            final(self)@ == old(self)@ + chunk@,
            within == (final(self)@.len() <= MAX_RESPONSE),
    {
        let mut k: usize = 0;
        while k < chunk.len()
            invariant
                k <= chunk@.len(),
                self@ == old(self)@ + chunk@.take(k as int),
            decreases chunk@.len() - k,
        {
            self.raw.push(chunk[k]);
            proof {
                assert(chunk@.take(k + 1) == chunk@.take(k as int).push(chunk@[k as int]));
                assert(old(self)@ + chunk@.take(k + 1) == (old(self)@ + chunk@.take(k as int)).push(chunk@[k as int]));
            }
            k = k + 1;
        }
        proof {
            assert(chunk@.take(chunk@.len() as int) == chunk@);
        }
        self.raw.len() <= MAX_RESPONSE
    }

    /// The body, once the response holds its whole declared length.
    pub fn complete_body(&self) -> (r: Option<Vec<u8>>)
        ensures
            match r {
                Some(b) => complete_body(self@) == Some(b@),
                None => complete_body(self@) is None,
            },
    {
        let end: Vec<u8> = vec![13u8, 10u8, 13u8, 10u8];
        proof {
            assert(end@ == head_end());
            assert(end@.len() == 4);
        }
        let n = self.raw.len();
        match find_subslice(self.raw.as_slice(), end.as_slice()) {
            Some(h) => {
                assert(h + 4 <= n);
                let head = slice_prefix(self.raw.as_slice(), h);
                match parse_content_length(&head) {
                    Some(len) => {
                        let start = h + 4;
                        if self.raw.len() - start >= len {
                            let body = slice_range(self.raw.as_slice(), start, start + len);
                            Some(body)
                        } else {
                            None
                        }
                    },
                    None => None,
                }
            },
            None => None,
        }
    }

    /// The body of a response whose connection has closed.
    pub fn body_at_close(&self) -> (b: Vec<u8>)
        ensures
            b@ == body_at_close(self@),
    {
        let end: Vec<u8> = vec![13u8, 10u8, 13u8, 10u8];
        proof {
            assert(end@ == head_end());
            assert(end@.len() == 4);
        }
        let n = self.raw.len();
        match find_subslice(self.raw.as_slice(), end.as_slice()) {
            Some(h) => {
                assert(h + 4 <= n);
                slice_range(self.raw.as_slice(), h + 4, n)
            },
            None => Vec::new(),
        }
    }
}

/// The bytes of `s` before position `n`.
fn slice_prefix(s: &[u8], n: usize) -> (t: Vec<u8>)
    requires
        n <= s@.len(),
    ensures
        t@ == s@.take(n as int),
{
    slice_range(s, 0, n)
}

/// The bytes of `s` from position `a` up to, not including, `b`.
fn slice_range(s: &[u8], a: usize, b: usize) -> (t: Vec<u8>)
    requires
        a <= b <= s@.len(),
    ensures
        t@ == s@.subrange(a as int, b as int),
{
    let mut t: Vec<u8> = Vec::new();
    let mut k: usize = a;
    while k < b
        invariant
            a <= k <= b <= s@.len(),
            t@ == s@.subrange(a as int, k as int),
        decreases b - k,
    {
        t.push(s[k]);
        proof {
            assert(s@.subrange(a as int, k + 1) == s@.subrange(a as int, k as int).push(s@[k as int]));
        }
        k = k + 1;
    }
    t
}

/// The request that asks the DevTools endpoint on `port` for `path` with `method`.
/// The `Host` header carries the port, from which DevTools derives its WebSocket URLs.
pub fn request_text(method: &str, path: &str, port: u16) -> (r: String)
    ensures
        r@ == method@ + " "@ + path@ + " HTTP/1.1\r\nHost: 127.0.0.1:"@ + decimal(port as nat)
            + "\r\nAccept: */*\r\nConnection: close\r\n\r\n"@,
{
    let mut r = String::new();
    r.append(method);
    r.append(" ");
    r.append(path);
    r.append(" HTTP/1.1\r\nHost: 127.0.0.1:");
    push_decimal(&mut r, port as u64);
    r.append("\r\nAccept: */*\r\nConnection: close\r\n\r\n");
    proof {
        assert(Seq::<char>::empty() + method@ == method@);
    }
    r
}

/// The first occurrence occurs, and nothing occurs before it.
proof fn lemma_first_occurrence_props<T>(haystack: Seq<T>, needle: Seq<T>)
    ensures
        first_occurrence(haystack, needle) matches Some(i) ==> occurs_at(haystack, needle, i) && forall|j: int|
            0 <= j < i ==> !occurs_at(haystack, needle, j),
{
    reveal(first_occurrence);
    if contains_seq(haystack, needle) {
        let i = choose|i: int| occurs_at(haystack, needle, i);
        lemma_least_occurrence(haystack, needle, i);
    }
}

/// Where `needle` occurs, it occurs a first time.
proof fn lemma_least_occurrence<T>(haystack: Seq<T>, needle: Seq<T>, i: int)
    requires
        occurs_at(haystack, needle, i),
    ensures
        exists|k: int| occurs_at(haystack, needle, k) && forall|j: int| 0 <= j < k ==> !occurs_at(haystack, needle, j),
    decreases i,
{
    if exists|j: int| 0 <= j < i && occurs_at(haystack, needle, j) {
        let j = choose|j: int| 0 <= j < i && occurs_at(haystack, needle, j);
        lemma_least_occurrence(haystack, needle, j);
    } else {
        assert(occurs_at(haystack, needle, i) && forall|j: int| 0 <= j < i ==> !occurs_at(haystack, needle, j));
    }
}

/// Once a response is complete, bytes that arrive later do not change its body: the
/// reader may stop as soon as the declared length has arrived.
pub proof fn lemma_complete_body_stable(raw: Seq<u8>, more: Seq<u8>)
    requires
        complete_body(raw) is Some,
    ensures
        complete_body(raw + more) == complete_body(raw),
{
    let all = raw + more;
    lemma_first_occurrence_props(raw, head_end());
    let h = first_occurrence(raw, head_end())->0;
    assert(head_end().len() == 4);
    assert(all.subrange(h, h + 4) == raw.subrange(h, h + 4));
    assert forall|j: int| 0 <= j < h implies !occurs_at(all, head_end(), j) by {
        assert(head_end().len() == 4);
        assert(!occurs_at(raw, head_end(), j));
        assert(all.subrange(j, j + 4) == raw.subrange(j, j + 4));
    }
    lemma_first_occurrence_is(all, head_end(), h);
    assert(all.take(h) == raw.take(h));
    let len = content_length_of_bytes(raw.take(h))->0;
    assert(all.subrange(h + 4, h + 4 + len) == raw.subrange(h + 4, h + 4 + len));
}

} // verus!
