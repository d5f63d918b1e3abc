use vstd::prelude::*;
use vstd::string::StrSliceExecFns;
use vstd::string::StringExecFns;
use vstd::utf8::decode_utf8;
use vstd::utf8::encode_utf8;
use vstd::utf8::valid_utf8;

use crate::digits::all_digits;
use crate::digits::dec_digits;
use crate::digits::digits_val;
use crate::digits::is_digit;
use crate::digits::parse_usize_digits;
use crate::digits::u64_to_dec;
use crate::errors::detailed_error;
use crate::errors::detailed_message;
use crate::errors::error;
use crate::errors::SbtClientError;

verus! {

/// The four bytes that end a header block: a blank line, `CR LF CR LF`.
pub open spec fn terminator() -> Seq<u8> {
    seq![13u8, 10u8, 13u8, 10u8]
}

/// True when the buffer's trailing four bytes are the header terminator.
pub open spec fn ends_with_terminator(s: Seq<u8>) -> bool {
    s.len() >= 4 && s.subrange(s.len() - 4, s.len() as int) == terminator()
}

/// Decides whether the accumulated header bytes end with the blank line that
/// closes a header block.
pub fn ends_with_double_newline(vec: &Vec<u8>) -> (r: bool)
    ensures
        r == ends_with_terminator(vec@),
{
    let n = vec.len();
    if n < 4 {
        return false;
    }
    let r = vec[n - 4] == 13 && vec[n - 3] == 10 && vec[n - 2] == 13 && vec[n - 1] == 10;
    proof {
        let t = vec@.subrange(n - 4, n as int);
        assert(t[0] == vec@[n - 4]);
        assert(t[1] == vec@[n - 3]);
        assert(t[2] == vec@[n - 2]);
        assert(t[3] == vec@[n - 1]);
        if r {
            assert(t =~= terminator());
        } else {
            assert(t != terminator());
        }
    }
    r
}

/// The number of bytes a one-byte-at-a-time header scan starting after `i`
/// read bytes consumes in all: the least `j` at which the buffer read so far
/// ends with the terminator, or `-1` when the stream runs out first.
pub open spec fn header_end_from(s: Seq<u8>, i: int) -> int
    recommends
        0 <= i <= s.len(),
    decreases s.len() - i,
{
    if i < 0 || i > s.len() {
        -1
    } else if ends_with_terminator(s.subrange(0, i)) {
        i
    } else if i == s.len() {
        -1
    } else {
        header_end_from(s, i + 1)
    }
}

/// Where the header block of a frame at the start of `s` ends, or `-1` when
/// `s` holds no complete header block.
pub open spec fn spec_header_end(s: Seq<u8>) -> int {
    header_end_from(s, 0)
}

/// What `header_end_from` finds is the first point, from `i` on, at which
/// the bytes read so far end with the terminator.
pub proof fn lemma_header_end_from(s: Seq<u8>, i: int)
    requires
        0 <= i <= s.len(),
    ensures
        header_end_from(s, i) >= 0 ==> i <= header_end_from(s, i) <= s.len()
            && ends_with_terminator(s.subrange(0, header_end_from(s, i))) && (forall|j: int|
            i <= j < header_end_from(s, i) ==> !ends_with_terminator(s.subrange(0, j))),
        header_end_from(s, i) == -1 ==> forall|j: int|
            i <= j <= s.len() ==> !ends_with_terminator(s.subrange(0, j)),
    decreases s.len() - i,
{
    if ends_with_terminator(s.subrange(0, i)) {
    } else if i == s.len() {
    } else {
        lemma_header_end_from(s, i + 1);
    }
}

/// A scan that stops at a given point stops exactly there: the scan's result
/// is determined by where the terminator first appears.
pub proof fn lemma_header_end_from_value(s: Seq<u8>, i: int, h: int)
    requires
        0 <= i <= h <= s.len(),
        ends_with_terminator(s.subrange(0, h)),
        forall|j: int| i <= j < h ==> !ends_with_terminator(s.subrange(0, j)),
    ensures
        header_end_from(s, i) == h,
    decreases h - i,
{
    if i < h {
        lemma_header_end_from_value(s, i + 1, h);
    }
}

/// Header scan termination: the scan never looks past the header block it
/// finds.  Whatever bytes follow on the stream, the scan stops at the same
/// place and the header bytes are the same.
pub proof fn lemma_header_scan_no_peek(s: Seq<u8>, t: Seq<u8>)
    requires
        spec_header_end(s) >= 0,
    ensures
        spec_header_end(s + t) == spec_header_end(s),
        (s + t).subrange(0, spec_header_end(s)) == s.subrange(0, spec_header_end(s)),
{
    let h = spec_header_end(s);
    lemma_header_end_from(s, 0);
    assert((s + t).subrange(0, h) =~= s.subrange(0, h));
    assert forall|j: int| 0 <= j < h implies !ends_with_terminator((s + t).subrange(0, j)) by {
        assert((s + t).subrange(0, j) =~= s.subrange(0, j));
    }
    lemma_header_end_from_value(s + t, 0, h);
}

/// The literal prefix of a Content-Length header line.
pub open spec fn cl_prefix() -> Seq<char> {
    "Content-Length: "@
}

/// True when the Content-Length pattern matches at position `i`: the literal
/// prefix stands there, followed by at least one decimal digit.
pub open spec fn cl_match_at(s: Seq<char>, i: int) -> bool {
    &&& 0 <= i
    &&& i + 16 < s.len()
    &&& s.subrange(i, i + 16) == cl_prefix()
    &&& is_digit(s[i + 16])
}

/// The first position at or after `i` where the Content-Length pattern
/// matches, or `-1` when it matches nowhere.
pub open spec fn cl_first_match_from(s: Seq<char>, i: int) -> int
    decreases s.len() - i,
{
    if i < 0 || i >= s.len() {
        -1
    } else if cl_match_at(s, i) {
        i
    } else {
        cl_first_match_from(s, i + 1)
    }
}

/// True when the header text holds a Content-Length line.
pub open spec fn cl_has_match(s: Seq<char>) -> bool {
    cl_first_match_from(s, 0) >= 0
}

/// The end of the run of decimal digits that starts at `j`.
pub open spec fn digits_end_from(s: Seq<char>, j: int) -> int
    decreases s.len() - j,
{
    if 0 <= j < s.len() && is_digit(s[j]) {
        digits_end_from(s, j + 1)
    } else {
        j
    }
}

/// The digit run that the first Content-Length match captures.
pub open spec fn cl_capture(s: Seq<char>) -> Seq<char>
    recommends
        cl_has_match(s),
{
    let i = cl_first_match_from(s, 0);
    s.subrange(i + 16, digits_end_from(s, i + 16))
}

/// What `cl_first_match_from` finds is the first match at or after `i`.
pub proof fn lemma_cl_first_match_from(s: Seq<char>, i: int)
    requires
        0 <= i,
    ensures
        cl_first_match_from(s, i) >= 0 ==> i <= cl_first_match_from(s, i) && cl_match_at(
            s,
            cl_first_match_from(s, i),
        ) && (forall|k: int| i <= k < cl_first_match_from(s, i) ==> !cl_match_at(s, k)),
        cl_first_match_from(s, i) == -1 ==> forall|k: int| i <= k ==> !cl_match_at(s, k),
    decreases s.len() - i,
{
    if i >= s.len() {
        assert forall|k: int| i <= k implies !cl_match_at(s, k) by {}
    } else if cl_match_at(s, i) {
    } else {
        lemma_cl_first_match_from(s, i + 1);
    }
}

/// The run `digits_end_from` delimits holds digits only, and ends where the
/// digits end.
pub proof fn lemma_digits_end_from(s: Seq<char>, j: int)
    requires
        0 <= j <= s.len(),
    ensures
        j <= digits_end_from(s, j) <= s.len(),
        forall|k: int| j <= k < digits_end_from(s, j) ==> is_digit(#[trigger] s[k]),
        digits_end_from(s, j) == s.len() || !is_digit(s[digits_end_from(s, j)]),
    decreases s.len() - j,
{
    if 0 <= j < s.len() && is_digit(s[j]) {
        lemma_digits_end_from(s, j + 1);
    }
}

/// A scan for the end of a digit run stops exactly where the digits end.
pub proof fn lemma_digits_end_from_value(s: Seq<char>, j: int, e: int)
    requires
        0 <= j <= e <= s.len(),
        forall|k: int| j <= k < e ==> is_digit(#[trigger] s[k]),
        e == s.len() || !is_digit(s[e]),
    ensures
        digits_end_from(s, j) == e,
    decreases e - j,
{
    if j < e {
        lemma_digits_end_from_value(s, j + 1, e);
    }
}

/// The captured digit run of a matching header is non-empty and all digits.
pub proof fn lemma_cl_capture_digits(s: Seq<char>)
    requires
        cl_has_match(s),
    ensures
        all_digits(cl_capture(s)),
        cl_capture(s).len() >= 1,
{
    let i = cl_first_match_from(s, 0);
    lemma_cl_first_match_from(s, 0);
    lemma_digits_end_from(s, i + 16);
    let e = digits_end_from(s, i + 16);
    assert(is_digit(s[i + 16]));
    if e == i + 16 {
        assert(false);
    }
    assert forall|k: int| 0 <= k < cl_capture(s).len() implies is_digit(
        #[trigger] cl_capture(s)[k],
    ) by {
        assert(cl_capture(s)[k] == s[i + 16 + k]);
    }
}

/// Relies on `regex::Regex::new` and `regex::Regex::captures`, with the
/// fixed pattern `Content-Length: ([0-9]+)`: `captures` returns the leftmost
/// match of the pattern in the text, and the group's greedy repetition makes
/// the captured text the longest run of decimal digits standing right after
/// the literal prefix.
#[verifier::external_body]
fn find_content_length_digits(headers: &str) -> (r: Option<String>)
    ensures
        r is Some <==> cl_has_match(headers@),
        r matches Some(d) ==> d@ == cl_capture(headers@),
{
    let re = regex::Regex::new("Content-Length: ([0-9]+)").unwrap();
    re.captures(headers).and_then(|c| c.get(1)).map(|m| m.as_str().to_owned())
}

/// Finds the Content-Length line in a header block and reads its declared
/// payload length.  Fails when no such line stands in the headers, or when
/// the declared number does not fit the machine's word.
pub fn extract_content_length(headers: String) -> (r: Result<usize, SbtClientError>)
    ensures
        r matches Ok(n) ==> cl_has_match(headers@) && n == digits_val(cl_capture(headers@)),
        r is Ok <==> cl_has_match(headers@) && digits_val(cl_capture(headers@)) <= usize::MAX,
        !cl_has_match(headers@) ==> (r matches Err(e) && e.message@
            == "Failed to extract content length from headers"@),
        cl_has_match(headers@) && digits_val(cl_capture(headers@)) > usize::MAX ==> (r matches Err(
        e,
        ) && e.message@ == detailed_message(
            "Failed to extract content length from headers"@,
            "number too large to fit in target type"@,
        )),
{
    match find_content_length_digits(headers.as_str()) {
        None => Err(error("Failed to extract content length from headers")),
        Some(d) => {
            proof {
                lemma_cl_capture_digits(headers@);
            }
            match parse_usize_digits(d.as_str()) {
                Some(n) => Ok(n),
                None => Err(
                    detailed_error(
                        "Failed to extract content length from headers",
                        "number too large to fit in target type",
                    ),
                ),
            }
        },
    }
}

/// Relies on `str::len`: it returns the slice's byte length, and a slice
/// held in memory has a byte length that fits the machine's word.
#[verifier::external_body]
pub(crate) fn str_byte_len(s: &str) -> (n: usize)
    ensures
        n == encode_utf8(s@).len(),
{
    s.len()
}

/// Relies on `String::from_utf8`: it returns `Ok` exactly when the bytes are
/// a valid UTF-8 encoding, the returned string then holds exactly those
/// bytes, and the error otherwise renders to a description of the fault.
#[verifier::external_body]
pub(crate) fn bytes_to_utf8(bytes: Vec<u8>) -> (r: Result<String, String>)
    ensures
        r is Ok <==> valid_utf8(bytes@),
        r matches Ok(s) ==> encode_utf8(s@) == bytes@,
{
    match String::from_utf8(bytes) {
        Ok(s) => Ok(s),
        Err(e) => Err(format!("{}", e)),
    }
}

/// Interprets an accumulated header block as UTF-8 text, failing when the
/// bytes are not a valid encoding.
pub fn headers_to_string(headers: Vec<u8>) -> (r: Result<String, SbtClientError>)
    ensures
        r is Ok <==> valid_utf8(headers@),
        r matches Ok(s) ==> encode_utf8(s@) == headers@,
        r matches Err(e) ==> exists|d: Seq<char>|
            e.message@ == detailed_message("Failed to read headers as a UTF-8 string"@, d),
{
    match bytes_to_utf8(headers) {
        Ok(s) => Ok(s),
        Err(d) => {
            let e = detailed_error("Failed to read headers as a UTF-8 string", d.as_str());
            proof {
                assert(e.message@ == detailed_message(
                    "Failed to read headers as a UTF-8 string"@,
                    d@,
                ));
            }
            Err(e)
        },
    }
}

/// True when a complete, well-formed frame stands at the start of `input`:
/// a terminated header block of valid UTF-8 with a Content-Length line whose
/// declared length fits the machine's word, followed by at least that many
/// payload bytes.
pub open spec fn frame_ok(input: Seq<u8>) -> bool {
    let he = spec_header_end(input);
    &&& he >= 0
    &&& valid_utf8(input.subrange(0, he))
    &&& cl_has_match(decode_utf8(input.subrange(0, he)))
    &&& digits_val(cl_capture(decode_utf8(input.subrange(0, he)))) <= usize::MAX
    &&& he + digits_val(cl_capture(decode_utf8(input.subrange(0, he)))) <= input.len()
}

/// The payload of the frame at the start of `input`: exactly the declared
/// number of bytes, right after the header block.
pub open spec fn frame_payload(input: Seq<u8>) -> Seq<u8>
    recommends
        frame_ok(input),
{
    let he = spec_header_end(input);
    let l = digits_val(cl_capture(decode_utf8(input.subrange(0, he))));
    input.subrange(he, he + l)
}

/// How many bytes reading the frame at the start of `input` consumes: the
/// header block and the declared payload, nothing after them.
pub open spec fn frame_consumed(input: Seq<u8>) -> int
    recommends
        frame_ok(input),
{
    spec_header_end(input) + digits_val(
        cl_capture(decode_utf8(input.subrange(0, spec_header_end(input)))),
    )
}

/// Reads one frame from the start of a byte buffer: scans the header block
/// byte by byte up to its terminator, reads the declared payload length from
/// it, and takes exactly that many payload bytes.  Consumes nothing past the
/// declared payload.
pub fn read_frame(input: &Vec<u8>) -> (r: Result<(Vec<u8>, usize), SbtClientError>)
    ensures
        r is Ok <==> frame_ok(input@),
        r matches Ok(f) ==> f.0@ == frame_payload(input@) && f.1 == frame_consumed(input@),
        spec_header_end(input@) >= 0 && valid_utf8(
            input@.subrange(0, spec_header_end(input@)),
        ) && !cl_has_match(decode_utf8(input@.subrange(0, spec_header_end(input@)))) ==> (
        r matches Err(e) && e.message@ == "Failed to extract content length from headers"@),
{
    broadcast use vstd::utf8::encode_utf8_decode_utf8;

    let mut headers: Vec<u8> = Vec::new();
    let mut i: usize = 0;
    let mut found = false;
    while i < input.len() && !found
        invariant
            0 <= i <= input@.len(),
            headers@ == input@.subrange(0, i as int),
            found == ends_with_terminator(input@.subrange(0, i as int)),
            forall|j: int| 0 <= j < i ==> !ends_with_terminator(input@.subrange(0, j)),
        decreases input@.len() - i,
    {
        headers.push(input[i]);
        i = i + 1;
        proof {
            assert(headers@ =~= input@.subrange(0, i as int));
        }
        found = ends_with_double_newline(&headers);
    }
    if !found {
        proof {
            lemma_header_end_from(input@, 0);
            if spec_header_end(input@) >= 0 {
                assert(ends_with_terminator(input@.subrange(0, spec_header_end(input@))));
                assert(false);
            }
        }
        return Err(detailed_error("Failed to read next byte of headers", "unexpected end of stream"));
    }
    let he = i;
    proof {
        lemma_header_end_from_value(input@, 0, he as int);
    }
    let htext = match headers_to_string(headers) {
        Ok(h) => h,
        Err(e) => {
            return Err(e);
        },
    };
    proof {
        assert(decode_utf8(input@.subrange(0, he as int)) == htext@);
    }
    let length = match extract_content_length(htext) {
        Ok(l) => l,
        Err(e) => {
            return Err(e);
        },
    };
    if input.len() - he < length {
        return Err(detailed_error("Failed to read bytes from Unix socket", "unexpected end of stream"));
    }
    proof {
        assert(he + length <= input@.len());
    }
    let end: usize = he + length;
    let mut payload: Vec<u8> = Vec::new();
    let mut k = he;
    while k < end
        invariant
            he <= k <= end,
            end == he + length,
            end <= input@.len(),
            payload@ == input@.subrange(he as int, k as int),
        decreases end - k,
    {
        payload.push(input[k]);
        k = k + 1;
        proof {
            assert(payload@ =~= input@.subrange(he as int, k as int));
        }
    }
    Ok((payload, he + length))
}

/// Header scan termination, at the frame level: reading a frame consumes
/// exactly the header block and the declared payload, so the result is the
/// same whatever bytes follow them on the stream.
pub proof fn lemma_frame_no_peek(s: Seq<u8>, t: Seq<u8>)
    requires
        frame_ok(s),
    ensures
        frame_ok(s + t),
        frame_payload(s + t) == frame_payload(s),
        frame_consumed(s + t) == frame_consumed(s),
{
    lemma_header_scan_no_peek(s, t);
    let he = spec_header_end(s);
    let l = digits_val(cl_capture(decode_utf8(s.subrange(0, he))));
    assert((s + t).subrange(he, he + l) =~= s.subrange(he, he + l));
}

/// The header block that announces a payload of `n` bytes.
pub open spec fn content_length_line(n: nat) -> Seq<char> {
    "Content-Length: "@ + dec_digits(n) + "\r\n\r\n"@
}

/// The framed form of an outbound command: the peer expects the declared
/// length to count two bytes more than the serialized text, and a trailing
/// `CR LF` after it.
pub open spec fn framed_command(s: Seq<char>) -> Seq<char> {
    content_length_line(encode_utf8(s).len() + 2) + s + "\r\n"@
}

/// Frames a serialized command for the wire: a Content-Length header block,
/// the command text, and the trailing `CR LF` the peer expects (declared in
/// the announced length).
pub fn with_content_length_header(command: &str) -> (r: Vec<u8>)
    requires
        encode_utf8(command@).len() + 2 <= usize::MAX,
    ensures
        r@ == encode_utf8(framed_command(command@)),
{
    let n = command.len();
    proof {
        assert(n == encode_utf8(command@).len());
    }
    let mut s: String = "Content-Length: ".to_owned();
    let num = u64_to_dec((n as u64) + 2);
    s.append(num.as_str());
    s.append("\r\n\r\n");
    s.append(command);
    s.append("\r\n");
    proof {
        assert(s@ =~= framed_command(command@));
    }
    s.as_str().as_bytes_vec()
}


// The lemmas below state the frame laws: a frame built for a payload of a
// declared length reads back to exactly that payload, consuming exactly the
// header block and the payload and nothing more.
/// UTF-8 encoding distributes over concatenation.
pub proof fn lemma_encode_utf8_concat(a: Seq<char>, b: Seq<char>)
    ensures
        encode_utf8(a + b) == encode_utf8(a) + encode_utf8(b),
    decreases a.len(),
{
    if a.len() == 0 {
        assert(a + b =~= b);
        assert(encode_utf8(a) =~= Seq::<u8>::empty());
        assert(encode_utf8(a) + encode_utf8(b) =~= encode_utf8(b));
    } else {
        assert((a + b).len() > 0);
        assert((a + b)[0] == a[0]);
        assert((a + b).drop_first() =~= a.drop_first() + b);
        lemma_encode_utf8_concat(a.drop_first(), b);
        assert(encode_utf8(a + b) =~= encode_utf8(a) + encode_utf8(b));
    }
}

/// The byte shape of a header block: ASCII throughout, no CR or LF before
/// the closing blank line, and the terminator as its last four bytes.
pub proof fn lemma_header_block_bytes(n: nat)
    ensures
        vstd::utf8::is_ascii_chars(content_length_line(n)),
        encode_utf8(content_length_line(n)).len() == content_length_line(n).len(),
        content_length_line(n).len() == 20 + dec_digits(n).len(),
        forall|k: int|
            0 <= k < encode_utf8(content_length_line(n)).len() - 4 ==> #[trigger] encode_utf8(
                content_length_line(n),
            )[k] != 13 && encode_utf8(content_length_line(n))[k] != 10,
        ends_with_terminator(encode_utf8(content_length_line(n))),
        content_length_line(n).subrange(0, 16) == cl_prefix(),
        content_length_line(n).subrange(16, 16 + dec_digits(n).len() as int) == dec_digits(n),
        content_length_line(n)[16 + dec_digits(n).len() as int] == '\r',
{
    reveal_strlit("Content-Length: ");
    reveal_strlit("\r\n\r\n");
    let p = cl_prefix();
    let d = dec_digits(n);
    let t = "\r\n\r\n"@;
    let h = content_length_line(n);
    assert(p.len() == 16);
    assert(t.len() == 4);
    crate::digits::lemma_dec_digits_all_digits(n);
    let dl = d.len() as int;
    assert(h.len() == 20 + dl);
    assert(h.subrange(0, 16) =~= p);
    assert(h.subrange(16, 16 + dl) =~= d);
    assert(h.subrange(16 + dl, h.len() as int) =~= t);
    assert(t[0] == '\r' && t[1] == '\n' && t[2] == '\r' && t[3] == '\n');
    assert(h[16 + dl] == '\r');
    assert forall|k: int| 0 <= k < 16 implies '\0' <= #[trigger] p[k] <= '\u{7f}' && p[k] != '\r'
        && p[k] != '\n' by {
        if k == 0 {
        } else if k == 1 {
        } else if k == 2 {
        } else if k == 3 {
        } else if k == 4 {
        } else if k == 5 {
        } else if k == 6 {
        } else if k == 7 {
        } else if k == 8 {
        } else if k == 9 {
        } else if k == 10 {
        } else if k == 11 {
        } else if k == 12 {
        } else if k == 13 {
        } else if k == 14 {
        } else {
            assert(k == 15);
        }
    }
    assert forall|k: int| 0 <= k < h.len() implies '\0' <= #[trigger] h[k] <= '\u{7f}' by {
        if k < 16 {
            assert(h[k] == p[k]);
        } else if k < 16 + dl {
            assert(h[k] == d[k - 16]);
            assert(is_digit(d[k - 16]));
        } else {
            assert(h[k] == t[k - 16 - dl]);
        }
    }
    assert(vstd::utf8::is_ascii_chars(h));
    vstd::utf8::is_ascii_chars_encode_utf8(h);
    let b = encode_utf8(h);
    assert forall|k: int| 0 <= k < b.len() - 4 implies #[trigger] b[k] != 13 && b[k] != 10 by {
        assert(b[k] == h[k] as u8);
        if k < 16 {
            assert(h[k] == p[k]);
            assert(p[k] != '\r' && p[k] != '\n');
        } else {
            assert(h[k] == d[k - 16]);
            assert(is_digit(d[k - 16]));
        }
    }
    assert(b[b.len() - 4] == 13 && b[b.len() - 3] == 10 && b[b.len() - 2] == 13 && b[b.len() - 1]
        == 10);
    assert(b.subrange(b.len() - 4, b.len() as int) =~= terminator());
}

/// Content-Length fidelity and frame round-trip, at the byte level: for any
/// declared length `n` and any payload of exactly `n` bytes, the frame made
/// of the header block for `n` followed by the payload reads back to exactly
/// that payload, and reading consumes exactly the whole frame.
pub proof fn lemma_frame_round_trip(payload: Seq<u8>, n: nat)
    requires
        n == payload.len(),
        n <= usize::MAX,
    ensures
        frame_ok(encode_utf8(content_length_line(n)) + payload),
        frame_payload(encode_utf8(content_length_line(n)) + payload) == payload,
        frame_consumed(encode_utf8(content_length_line(n)) + payload) == (encode_utf8(
            content_length_line(n),
        ) + payload).len(),
{
    broadcast use vstd::utf8::encode_utf8_decode_utf8;
    broadcast use vstd::utf8::encode_utf8_valid_utf8;

    lemma_header_block_bytes(n);
    crate::digits::lemma_dec_digits_all_digits(n);
    crate::digits::lemma_dec_digits_val(n);
    let h = content_length_line(n);
    let hb = encode_utf8(h);
    let frame = hb + payload;
    let hl = hb.len() as int;
    let dl = dec_digits(n).len() as int;
    assert(frame.subrange(0, hl) =~= hb);
    assert(ends_with_terminator(frame.subrange(0, hl)));
    assert forall|j: int| 0 <= j < hl implies !ends_with_terminator(frame.subrange(0, j)) by {
        if j >= 4 {
            let sub = frame.subrange(0, j);
            if ends_with_terminator(sub) {
                let tt = sub.subrange(j - 4, j);
                assert(tt[0] == frame[j - 4] && tt[1] == frame[j - 3] && tt[2] == frame[j - 2]
                    && tt[3] == frame[j - 1]);
                assert(frame[j - 4] == hb[j - 4] && frame[j - 3] == hb[j - 3] && frame[j - 2]
                    == hb[j - 2] && frame[j - 1] == hb[j - 1]);
                assert(tt == terminator());
                assert(hb[j - 4] == 13 && hb[j - 3] == 10 && hb[j - 2] == 13 && hb[j - 1] == 10);
                if j <= hl - 4 {
                    assert(hb[j - 1] != 10);
                } else if j == hl - 3 {
                    assert(hb[hl - 4] == 13);
                } else if j == hl - 2 {
                    assert(hb[j - 3] == hb[hl - 5] && hl - 5 < hl - 4);
                    assert(hb[hl - 5] != 10);
                } else {
                    assert(j == hl - 1);
                    assert(hb[hl - 2] == 13);
                }
                assert(false);
            }
        }
    }
    lemma_header_end_from_value(frame, 0, hl);
    assert(spec_header_end(frame) == hl);
    assert(valid_utf8(frame.subrange(0, hl)));
    assert(decode_utf8(frame.subrange(0, hl)) == h);
    // the Content-Length pattern matches at the very start of the header text
    assert(h.subrange(0, 16) == cl_prefix());
    assert(h[16] == dec_digits(n)[0]) by {
        assert(h.subrange(16, 16 + dl)[0] == h[16]);
    }
    assert(is_digit(h[16]));
    assert(cl_match_at(h, 0));
    assert(cl_first_match_from(h, 0) == 0);
    assert forall|k: int| 16 <= k < 16 + dl implies is_digit(#[trigger] h[k]) by {
        assert(h.subrange(16, 16 + dl)[k - 16] == h[k]);
        assert(is_digit(dec_digits(n)[k - 16]));
    }
    assert(!is_digit(h[16 + dl]));
    lemma_digits_end_from_value(h, 16, 16 + dl);
    assert(cl_capture(h) =~= dec_digits(n));
    assert(digits_val(cl_capture(h)) == n);
    assert(frame_ok(frame));
    assert(frame_payload(frame) =~= payload);
    assert(frame_consumed(frame) == frame.len());
}

/// Frame round-trip for an outbound command: framing a serialized command
/// and reading the frame back through the frame reader yields a payload
/// that decodes to exactly the command text followed by the two-byte
/// `CR LF` suffix that the declared length counts.
pub proof fn lemma_command_frame_round_trip(s: Seq<char>)
    requires
        encode_utf8(s).len() + 2 <= usize::MAX,
    ensures
        frame_ok(encode_utf8(framed_command(s))),
        frame_payload(encode_utf8(framed_command(s))) == encode_utf8(s + "\r\n"@),
        decode_utf8(frame_payload(encode_utf8(framed_command(s)))) == s + "\r\n"@,
        frame_consumed(encode_utf8(framed_command(s))) == encode_utf8(framed_command(s)).len(),
{
    broadcast use vstd::utf8::encode_utf8_decode_utf8;

    reveal_strlit("\r\n");
    let m = (encode_utf8(s).len() + 2) as nat;
    let suffix = "\r\n"@;
    assert(suffix.len() == 2);
    assert(vstd::utf8::is_ascii_chars(suffix)) by {
        assert(suffix[0] == '\r' && suffix[1] == '\n');
        assert forall|i: int| 0 <= i < 2 implies '\0' <= #[trigger] suffix[i] <= '\u{7f}' by {
            if i == 0 {
            } else {
                assert(i == 1);
            }
        }
    }
    vstd::utf8::is_ascii_chars_encode_utf8(suffix);
    lemma_encode_utf8_concat(s, suffix);
    assert(encode_utf8(s + suffix).len() == m);
    assert(framed_command(s) =~= content_length_line(m) + (s + suffix));
    lemma_encode_utf8_concat(content_length_line(m), s + suffix);
    lemma_frame_round_trip(encode_utf8(s + suffix), m);
    assert(encode_utf8(framed_command(s)) == encode_utf8(content_length_line(m)) + encode_utf8(
        s + suffix,
    ));
}

} // verus!
