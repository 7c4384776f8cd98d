//! An owned HTTP response and its wire encoder.
//!
//! The encoder is a pure function of the response and appends, in this
//! order: the status line, a `Content-Length` header, a default
//! `Content-Type: text/plain` header unless the caller supplied one (any
//! case), the caller's headers, a blank line, and the body. Identical
//! inputs therefore yield byte-identical output.

use vstd::prelude::*;
use vstd::string::StringSliceAdditionalSpecFns;
use vstd::utf8::encode_utf8;
use vstd::utf8::is_ascii_chars;

use crate::ascii::{ci_equal, dec_digits, lower_bytes, render_decimal};
use crate::buffer::Buffer;
use crate::eq_ignore_ascii_case;

verus! {

/// The mathematical model of a response: a status code, the caller's
/// header pairs in order, and the body bytes.
pub ghost struct ResponseModel {
    pub status: u16,
    pub headers: Seq<(Seq<char>, Seq<char>)>,
    pub body: Seq<u8>,
}

pub struct Response {
    pub status: u16,
    pub headers: Vec<(String, String)>,
    pub body: Vec<u8>,
}

impl View for Response {
    type V = ResponseModel;

    open spec fn view(&self) -> ResponseModel {
        ResponseModel {
            status: self.status,
            headers: self.headers@.map_values(|p: (String, String)| (p.0@, p.1@)),
            body: self.body@,
        }
    }
}

/// The reason phrase for a status code.
pub open spec fn status_text(status: u16) -> Seq<char> {
    if status == 200 {
        "OK"@
    } else if status == 404 {
        "Not Found"@
    } else {
        "Internal Server Error"@
    }
}

/// `HTTP/1.1 <code> <reason>\r\n`.
pub open spec fn status_line(status: u16) -> Seq<u8> {
    "HTTP/1.1 ".spec_bytes() + dec_digits(status as nat) + " ".spec_bytes() + encode_utf8(
        status_text(status),
    ) + "\r\n".spec_bytes()
}

/// Whether some header's name equals `target` up to ASCII case.
pub open spec fn has_header(headers: Seq<(Seq<char>, Seq<char>)>, target: Seq<u8>) -> bool {
    exists|i: int| 0 <= i < headers.len() && ci_equal(encode_utf8(#[trigger] headers[i].0), target)
}

/// The caller's headers as byte pairs.
pub open spec fn user_pairs(headers: Seq<(Seq<char>, Seq<char>)>) -> Seq<(Seq<u8>, Seq<u8>)> {
    headers.map_values(|h: (Seq<char>, Seq<char>)| (encode_utf8(h.0), encode_utf8(h.1)))
}

/// The header (name, value) byte pairs the encoder emits, in order: the
/// computed `Content-Length`, the default `Content-Type` when the caller
/// supplied none, then the caller's headers.
pub open spec fn header_pairs(r: ResponseModel) -> Seq<(Seq<u8>, Seq<u8>)> {
    let user = user_pairs(r.headers);
    let cl = ("Content-Length".spec_bytes(), dec_digits(r.body.len()));
    if has_header(r.headers, "Content-Type".spec_bytes()) {
        seq![cl] + user
    } else {
        seq![cl, ("Content-Type".spec_bytes(), "text/plain".spec_bytes())] + user
    }
}

/// `<name>: <value>\r\n`.
pub open spec fn pair_line(p: (Seq<u8>, Seq<u8>)) -> Seq<u8> {
    p.0 + ": ".spec_bytes() + p.1 + "\r\n".spec_bytes()
}

/// The header section: each pair's line, concatenated in order.
pub open spec fn lines_of(pairs: Seq<(Seq<u8>, Seq<u8>)>) -> Seq<u8>
    decreases pairs.len(),
{
    if pairs.len() == 0 {
        Seq::<u8>::empty()
    } else {
        lines_of(pairs.drop_last()) + pair_line(pairs.last())
    }
}

/// The full wire image of a response.
pub open spec fn spec_encode(r: ResponseModel) -> Seq<u8> {
    status_line(r.status) + lines_of(header_pairs(r)) + "\r\n".spec_bytes() + r.body
}

/// How many pairs carry the (ASCII case-insensitive) name `target`.
pub open spec fn count_named(pairs: Seq<(Seq<u8>, Seq<u8>)>, target: Seq<u8>) -> nat
    decreases pairs.len(),
{
    if pairs.len() == 0 {
        0
    } else {
        count_named(pairs.drop_last(), target) + if ci_equal(pairs.last().0, target) {
            1nat
        } else {
            0nat
        }
    }
}

proof fn lemma_count_concat(a: Seq<(Seq<u8>, Seq<u8>)>, b: Seq<(Seq<u8>, Seq<u8>)>, target: Seq<u8>)
    ensures
        count_named(a + b, target) == count_named(a, target) + count_named(b, target),
    decreases b.len(),
{
    if b.len() == 0 {
        assert(a + b =~= a);
    } else {
        assert((a + b).drop_last() =~= a + b.drop_last());
        assert((a + b).last() == b.last());
        lemma_count_concat(a, b.drop_last(), target);
    }
}

proof fn lemma_count_none(s: Seq<(Seq<u8>, Seq<u8>)>, target: Seq<u8>)
    requires
        forall|i: int| 0 <= i < s.len() ==> !ci_equal((#[trigger] s[i]).0, target),
    ensures
        count_named(s, target) == 0,
    decreases s.len(),
{
    if s.len() > 0 {
        assert(s.last() == s[s.len() - 1]);
        lemma_count_none(s.drop_last(), target);
    }
}

proof fn lemma_count_at_least_one(s: Seq<(Seq<u8>, Seq<u8>)>, target: Seq<u8>)
    requires
        exists|i: int| 0 <= i < s.len() && ci_equal((#[trigger] s[i]).0, target),
    ensures
        count_named(s, target) >= 1,
    decreases s.len(),
{
    let i = choose|i: int| 0 <= i < s.len() && ci_equal((#[trigger] s[i]).0, target);
    if i < s.len() - 1 {
        assert(s.drop_last()[i] == s[i]);
        lemma_count_at_least_one(s.drop_last(), target);
    } else {
        assert(ci_equal(s.last().0, target));
    }
}

proof fn lemma_count_single(x: (Seq<u8>, Seq<u8>), target: Seq<u8>)
    ensures
        count_named(seq![x], target) == if ci_equal(x.0, target) {
            1nat
        } else {
            0nat
        },
{
    let s = seq![x];
    assert(s.drop_last() =~= Seq::<(Seq<u8>, Seq<u8>)>::empty());
    assert(count_named(s.drop_last(), target) == 0);
    assert(s.last() == x);
}

/// The names `Content-Length` and `Content-Type` differ even up to case.
proof fn lemma_distinct_header_names()
    ensures
        !ci_equal("Content-Length".spec_bytes(), "Content-Type".spec_bytes()),
{
    reveal_strlit("Content-Length");
    reveal_strlit("Content-Type");
    assert(is_ascii_chars("Content-Length"@));
    assert(is_ascii_chars("Content-Type"@));
    vstd::utf8::is_ascii_chars_encode_utf8("Content-Length"@);
    vstd::utf8::is_ascii_chars_encode_utf8("Content-Type"@);
    assert(lower_bytes("Content-Length".spec_bytes()).len() == 14);
    assert(lower_bytes("Content-Type".spec_bytes()).len() == 12);
}

/// Law: with no caller-supplied `Content-Type` and no caller-supplied
/// `Content-Length` (names compared ignoring ASCII case), the encoded
/// header section carries exactly one `Content-Length`, whose value is
/// the body length, and exactly one `Content-Type`, the default
/// `text/plain`.
pub proof fn lemma_default_content_type(r: ResponseModel)
    requires
        !has_header(r.headers, "Content-Type".spec_bytes()),
        !has_header(r.headers, "Content-Length".spec_bytes()),
    ensures
        count_named(header_pairs(r), "Content-Type".spec_bytes()) == 1,
        count_named(header_pairs(r), "Content-Length".spec_bytes()) == 1,
        header_pairs(r)[0] == ("Content-Length".spec_bytes(), dec_digits(r.body.len())),
        header_pairs(r)[1] == ("Content-Type".spec_bytes(), "text/plain".spec_bytes()),
{
    lemma_distinct_header_names();
    let cl = ("Content-Length".spec_bytes(), dec_digits(r.body.len()));
    let ct = ("Content-Type".spec_bytes(), "text/plain".spec_bytes());
    let prefix = seq![cl, ct];
    let user = user_pairs(r.headers);
    assert(header_pairs(r) == prefix + user);
    assert forall|i: int| 0 <= i < user.len() implies !ci_equal(
        (#[trigger] user[i]).0,
        "Content-Type".spec_bytes(),
    ) by {
        assert(user[i].0 == encode_utf8(r.headers[i].0));
    }
    assert forall|i: int| 0 <= i < user.len() implies !ci_equal(
        (#[trigger] user[i]).0,
        "Content-Length".spec_bytes(),
    ) by {
        assert(user[i].0 == encode_utf8(r.headers[i].0));
    }
    lemma_count_none(user, "Content-Type".spec_bytes());
    lemma_count_none(user, "Content-Length".spec_bytes());
    lemma_count_concat(prefix, user, "Content-Type".spec_bytes());
    lemma_count_concat(prefix, user, "Content-Length".spec_bytes());
    assert(prefix.drop_last() =~= seq![cl]);
    assert(prefix.last() == ct);
    lemma_count_single(cl, "Content-Type".spec_bytes());
    lemma_count_single(cl, "Content-Length".spec_bytes());
    assert(ci_equal(ct.0, "Content-Type".spec_bytes()));
    assert(count_named(prefix, "Content-Type".spec_bytes()) == 1);
    assert(count_named(prefix, "Content-Length".spec_bytes()) == 1);
}

/// Law: a caller-supplied `content-type` header (any case) suppresses
/// the default, and the encoder emits no duplicate of its own: the
/// content-type headers on the wire are exactly the caller's.
pub proof fn lemma_custom_content_type(r: ResponseModel)
    requires
        has_header(r.headers, "Content-Type".spec_bytes()),
    ensures
        count_named(header_pairs(r), "Content-Type".spec_bytes()) == count_named(
            user_pairs(r.headers),
            "Content-Type".spec_bytes(),
        ),
        count_named(header_pairs(r), "Content-Type".spec_bytes()) >= 1,
{
    lemma_distinct_header_names();
    let cl = ("Content-Length".spec_bytes(), dec_digits(r.body.len()));
    let prefix = seq![cl];
    let user = user_pairs(r.headers);
    assert(header_pairs(r) == prefix + user);
    lemma_count_concat(prefix, user, "Content-Type".spec_bytes());
    lemma_count_single(cl, "Content-Type".spec_bytes());
    assert(count_named(prefix, "Content-Type".spec_bytes()) == 0);
    let i = choose|i: int|
        0 <= i < r.headers.len() && ci_equal(
            encode_utf8(#[trigger] r.headers[i].0),
            "Content-Type".spec_bytes(),
        );
    assert(user[i].0 == encode_utf8(r.headers[i].0));
    lemma_count_at_least_one(user, "Content-Type".spec_bytes());
}

/// A response's wire image is never empty: the status line alone has at
/// least one digit.
pub proof fn lemma_encode_nonempty(r: ResponseModel)
    ensures
        spec_encode(r).len() >= 1,
{
    assert(dec_digits(r.status as nat).len() >= 1);
}

/// Appends every byte of `bytes` to `out`.
fn push_all(out: &mut Vec<u8>, bytes: &[u8])
    ensures
        final(out)@ == old(out)@ + bytes@,
{
    let mut i: usize = 0;
    while i < bytes.len()
        invariant
            i <= bytes@.len(),
            out@ == old(out)@ + bytes@.subrange(0, i as int),
        decreases bytes@.len() - i,
    {
        out.push(bytes[i]);
        proof {
            assert(out@ =~= old(out)@ + bytes@.subrange(0, i + 1));
        }
        i += 1;
    }
    proof {
        assert(out@ =~= old(out)@ + bytes@);
    }
}

impl Response {
    pub fn new(status: u16) -> (r: Response)
        ensures
            r@.status == status,
            r@.headers == Seq::<(Seq<char>, Seq<char>)>::empty(),
            r@.body == Seq::<u8>::empty(),
    {
        let r = Response { status, body: Vec::new(), headers: Vec::new() };
        proof {
            assert(r@.headers =~= Seq::<(Seq<char>, Seq<char>)>::empty());
        }
        r
    }

    pub fn with_body(self, body: Vec<u8>) -> (r: Response)
        ensures
            r@.status == self@.status,
            r@.headers == self@.headers,
            r@.body == body@,
    {
        Response { body, ..self }
    }

    /// Whether some header of this response is named `target` up to ASCII case.
    pub fn has_header_named(&self, target: &str) -> (r: bool)
        ensures
            r == has_header(self@.headers, target.spec_bytes()),
    {
        let mut i: usize = 0;
        while i < self.headers.len()
            invariant
                i <= self.headers@.len(),
                forall|j: int|
                    0 <= j < i ==> !ci_equal(
                        encode_utf8(#[trigger] self@.headers[j].0),
                        target.spec_bytes(),
                    ),
            decreases self.headers@.len() - i,
        {
            let p = &self.headers[i];
            if eq_ignore_ascii_case(p.0.as_str().as_bytes(), target.as_bytes()) {
                assert(ci_equal(encode_utf8(self@.headers[i as int].0), target.spec_bytes()));
                return true;
            }
            i += 1;
        }
        false
    }

    /// The wire image of this response, exactly `spec_encode` of its model.
    pub fn encode_to_vec(&self) -> (r: Vec<u8>)
        ensures
            r@ == spec_encode(self@),
    {
        let ghost pairs = header_pairs(self@);
        let mut out: Vec<u8> = Vec::new();

        // Status line.
        push_all(&mut out, "HTTP/1.1 ".as_bytes());
        let digits = render_decimal(self.status as u64);
        push_all(&mut out, digits.as_slice());
        push_all(&mut out, " ".as_bytes());
        let text: &str = if self.status == 200 {
            "OK"
        } else if self.status == 404 {
            "Not Found"
        } else {
            "Internal Server Error"
        };
        push_all(&mut out, text.as_bytes());
        push_all(&mut out, "\r\n".as_bytes());
        proof {
            assert(out@ =~= status_line(self@.status));
        }

        // Content-Length.
        push_all(&mut out, "Content-Length".as_bytes());
        push_all(&mut out, ": ".as_bytes());
        let body_len = render_decimal(self.body.len() as u64);
        push_all(&mut out, body_len.as_slice());
        push_all(&mut out, "\r\n".as_bytes());
        proof {
            assert(pairs[0] == ("Content-Length".spec_bytes(), dec_digits(self@.body.len())));
            assert(body_len@ == dec_digits(self@.body.len()));
            assert(pairs.take(1).drop_last() =~= Seq::<(Seq<u8>, Seq<u8>)>::empty());
            assert(pairs.take(1).last() == pairs[0]);
            assert(lines_of(pairs.take(1)) == lines_of(pairs.take(1).drop_last()) + pair_line(
                pairs.take(1).last(),
            ));
            assert(out@ =~= status_line(self@.status) + lines_of(pairs.take(1)));
        }

        // Default Content-Type when the caller supplied none.
        let has_ct = self.has_header_named("Content-Type");
        let ghost np: int = if has_ct { 1 } else { 2 };
        if !has_ct {
            push_all(&mut out, "Content-Type".as_bytes());
            push_all(&mut out, ": ".as_bytes());
            push_all(&mut out, "text/plain".as_bytes());
            push_all(&mut out, "\r\n".as_bytes());
            proof {
                assert(pairs.take(2).drop_last() =~= pairs.take(1));
                assert(pairs.take(2).last() == pairs[1]);
                assert(out@ =~= status_line(self@.status) + lines_of(pairs.take(2)));
            }
        }
        assert(out@ == status_line(self@.status) + lines_of(pairs.take(np)));

        // The caller's headers, in order.
        let mut j: usize = 0;
        while j < self.headers.len()
            invariant
                j <= self.headers@.len(),
                pairs == header_pairs(self@),
                np == if has_header(self@.headers, "Content-Type".spec_bytes()) {
                    1int
                } else {
                    2int
                },
                pairs.len() == np + self.headers@.len(),
                out@ == status_line(self@.status) + lines_of(pairs.take(np + j)),
            decreases self.headers@.len() - j,
        {
            let p = &self.headers[j];
            push_all(&mut out, p.0.as_str().as_bytes());
            push_all(&mut out, ": ".as_bytes());
            push_all(&mut out, p.1.as_str().as_bytes());
            push_all(&mut out, "\r\n".as_bytes());
            proof {
                assert(pairs[np + j] == (
                    encode_utf8(self@.headers[j as int].0),
                    encode_utf8(self@.headers[j as int].1),
                ));
                assert(pairs.take(np + j + 1).drop_last() =~= pairs.take(np + j));
                assert(pairs.take(np + j + 1).last() == pairs[np + j]);
                assert(out@ =~= status_line(self@.status) + lines_of(pairs.take(np + j + 1)));
            }
            j += 1;
        }
        proof {
            assert(pairs.take(np + self.headers@.len()) =~= pairs);
        }

        // Blank line, then the body verbatim.
        push_all(&mut out, "\r\n".as_bytes());
        push_all(&mut out, self.body.as_slice());
        proof {
            assert(out@ =~= spec_encode(self@));
        }
        out
    }

    /// Appends the wire image of this response to `dst`. The output is a
    /// pure function of the response, so identical inputs give
    /// byte-identical output.
    pub fn encode(&self, dst: &mut Buffer)
        requires
            old(dst).wf(),
        ensures
            final(dst).wf(),
            final(dst)@ == old(dst)@ + spec_encode(self@),
            final(dst).consumed() == old(dst).consumed(),
            final(dst).total() == old(dst).total() + spec_encode(self@).len(),
    {
        let bytes = self.encode_to_vec();
        dst.append(bytes.as_slice());
    }
}

} // verus!
