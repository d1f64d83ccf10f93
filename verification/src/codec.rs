//! Newline-delimited framing of the JSON messages exchanged over TCP.

use vstd::prelude::*;
use vstd::string::*;

use crate::error::{is_protocol_error, spec_connection_closed, AppError};

verus! {

/// Whether `c` is white space in Unicode's sense (the property
/// `White_Space`), which is what `char::is_whitespace` tests.
pub open spec fn is_white_space(c: char) -> bool {
    let v = c as u32;
    ||| 0x09 <= v <= 0x0d
    ||| v == 0x20
    ||| v == 0x85
    ||| v == 0xa0
    ||| v == 0x1680
    ||| 0x2000 <= v <= 0x200a
    ||| v == 0x2028
    ||| v == 0x2029
    ||| v == 0x202f
    ||| v == 0x205f
    ||| v == 0x3000
}

/// Decides whether `c` is white space.
pub fn white_space(c: char) -> (b: bool)
    ensures
        b == is_white_space(c),
{
    let v = c as u32;
    (0x09 <= v && v <= 0x0d) || v == 0x20 || v == 0x85 || v == 0xa0 || v == 0x1680 || (0x2000
        <= v && v <= 0x200a) || v == 0x2028 || v == 0x2029 || v == 0x202f || v == 0x205f || v
        == 0x3000
}

/// `s` without its leading white space.
pub open spec fn trim_start(s: Seq<char>) -> Seq<char>
    decreases s.len(),
{
    if s.len() > 0 && is_white_space(s[0]) {
        trim_start(s.drop_first())
    } else {
        s
    }
}

/// `s` without its trailing white space.
pub open spec fn trim_end(s: Seq<char>) -> Seq<char>
    decreases s.len(),
{
    if s.len() > 0 && is_white_space(s.last()) {
        trim_end(s.drop_last())
    } else {
        s
    }
}

/// `s` without leading and trailing white space.
pub open spec fn spec_trim(s: Seq<char>) -> Seq<char> {
    trim_end(trim_start(s))
}

/// Skipping `lo` leading white-space characters, up to the first other one,
/// is trimming the start.
proof fn lemma_trim_start(s: Seq<char>, lo: int)
    requires
        0 <= lo <= s.len(),
        forall|j: int| 0 <= j < lo ==> is_white_space(#[trigger] s[j]),
        lo < s.len() ==> !is_white_space(s[lo]),
    ensures
        trim_start(s) == s.subrange(lo, s.len() as int),
    decreases s.len(),
{
    if lo == 0 {
        assert(s.subrange(0, s.len() as int) =~= s);
    } else {
        assert(is_white_space(s[0]));
        lemma_trim_start(s.drop_first(), lo - 1);
        assert(s.drop_first().subrange(lo - 1, s.len() - 1) =~= s.subrange(lo, s.len() as int));
    }
}

/// Dropping trailing white space from index `hi` on, after the last other
/// character, is trimming the end.
proof fn lemma_trim_end(s: Seq<char>, hi: int)
    requires
        0 <= hi <= s.len(),
        forall|j: int| hi <= j < s.len() ==> is_white_space(#[trigger] s[j]),
        hi > 0 ==> !is_white_space(s[hi - 1]),
    ensures
        trim_end(s) == s.subrange(0, hi),
    decreases s.len(),
{
    if hi == s.len() {
        assert(s.subrange(0, hi) =~= s);
    } else {
        assert(is_white_space(s.last()));
        lemma_trim_end(s.drop_last(), hi);
        assert(s.drop_last().subrange(0, hi) =~= s.subrange(0, hi));
    }
}

/// Removes leading and trailing white space, as `str::trim` does.
pub fn trim(s: &str) -> (r: String)
    ensures
        r@ == spec_trim(s@),
{
    let n = s.unicode_len();
    let mut lo: usize = 0;
    while lo < n
        invariant
            0 <= lo <= n,
            n == s@.len(),
            forall|j: int| 0 <= j < lo ==> is_white_space(#[trigger] s@[j]),
        ensures
            0 <= lo <= n,
            forall|j: int| 0 <= j < lo ==> is_white_space(#[trigger] s@[j]),
            lo < n ==> !is_white_space(s@[lo as int]),
        decreases n - lo,
    {
        if !white_space(s.get_char(lo)) {
            break;
        }
        lo = lo + 1;
    }
    let mut hi: usize = n;
    while hi > lo
        invariant
            lo <= hi <= n,
            n == s@.len(),
            forall|j: int| hi <= j < n ==> is_white_space(#[trigger] s@[j]),
        ensures
            lo <= hi <= n,
            forall|j: int| hi <= j < n ==> is_white_space(#[trigger] s@[j]),
            hi > lo ==> !is_white_space(s@[hi - 1]),
        decreases hi - lo,
    {
        if !white_space(s.get_char(hi - 1)) {
            break;
        }
        hi = hi - 1;
    }
    proof {
        lemma_trim_start(s@, lo as int);
        let t = s@.subrange(lo as int, n as int);
        assert forall|j: int| hi - lo <= j < t.len() implies is_white_space(#[trigger] t[j]) by {
            assert(t[j] == s@[j + lo]);
        }
        if hi > lo {
            assert(t[hi - lo - 1] == s@[hi - 1]);
        }
        lemma_trim_end(t, hi - lo);
        assert(t.subrange(0, hi - lo) =~= s@.subrange(lo as int, hi as int));
    }
    s.substring_char(lo, hi).to_owned()
}

/// The bytes sent for a message body: the body and a newline.
pub open spec fn spec_frame(body: Seq<u8>) -> Seq<u8> {
    body.push(10u8)
}

/// Frames a serialized message for the wire by ending it with a newline.
pub fn frame_message(body: Vec<u8>) -> (framed: Vec<u8>)
    ensures
        framed@ == spec_frame(body@),
{
    let mut framed = body;
    framed.push(10u8);
    framed
}

/// What a received line yields: the error that reports a closed connection
/// when nothing was read, the trimmed line otherwise.
pub open spec fn spec_decode_line(line: Seq<char>, bytes_read: nat) -> Result<Seq<char>, ()> {
    if bytes_read == 0 {
        Err(())
    } else {
        Ok(spec_trim(line))
    }
}

/// Takes a line read from the wire, with the number of bytes the read
/// consumed, and returns the message text to parse; a read of nothing means
/// the peer closed the connection.
pub fn decode_line(line: &str, bytes_read: usize) -> (r: Result<String, AppError>)
    ensures
        match r {
            Ok(text) => spec_decode_line(line@, bytes_read as nat) == Ok::<Seq<char>, ()>(text@),
            Err(e) => spec_decode_line(line@, bytes_read as nat) is Err && is_protocol_error(
                e,
                spec_connection_closed(),
            ),
        },
{
    if bytes_read == 0 {
        return Err(AppError::connection_closed());
    }
    Ok(trim(line))
}

/// UTF-8 encoding distributes over concatenation.
pub proof fn lemma_encode_utf8_append(a: Seq<char>, b: Seq<char>)
    ensures
        vstd::utf8::encode_utf8(a + b) == vstd::utf8::encode_utf8(a) + vstd::utf8::encode_utf8(b),
    decreases a.len(),
{
    if a.len() == 0 {
        assert(a + b =~= b);
        assert(vstd::utf8::encode_utf8(a) =~= Seq::<u8>::empty());
        assert(Seq::<u8>::empty() + vstd::utf8::encode_utf8(b) =~= vstd::utf8::encode_utf8(b));
    } else {
        lemma_encode_utf8_append(a.drop_first(), b);
        assert((a + b).drop_first() =~= a.drop_first() + b);
        assert((a + b)[0] == a[0]);
    }
}

/// A message framed for the wire and read back as a line is decoded to the
/// text it was made from, when that text neither starts nor ends with white
/// space (as serialized JSON does not): the frame is the UTF-8 of the text and
/// a newline, and decoding that line gives the text back.
pub proof fn lemma_frame_roundtrip(text: Seq<char>, bytes_read: nat)
    requires
        text.len() > 0 ==> !is_white_space(text[0]) && !is_white_space(text.last()),
        bytes_read > 0,
    ensures
        spec_frame(vstd::utf8::encode_utf8(text)) == vstd::utf8::encode_utf8(text.push('\n')),
        spec_decode_line(text.push('\n'), bytes_read) == Ok::<Seq<char>, ()>(text),
{
    lemma_encode_utf8_append(text, seq!['\n']);
    assert(text + seq!['\n'] =~= text.push('\n'));
    assert(('\n' as u32) == 10u32);
    assert(10u32 & 0x7F == 10u32) by (bit_vector);
    let nl = seq!['\n'];
    assert(nl.drop_first() =~= Seq::<char>::empty());
    assert(vstd::utf8::encode_utf8(nl.drop_first()) =~= Seq::<u8>::empty());
    assert(vstd::utf8::encode_scalar(nl[0] as u32) =~= seq![10u8]);
    assert(vstd::utf8::encode_utf8(nl) =~= seq![10u8]);
    let line = text.push('\n');
    if text.len() > 0 {
        lemma_trim_start(line, 0);
        assert(line.subrange(0, line.len() as int) =~= line);
        assert(line[text.len() - 1] == text.last());
        lemma_trim_end(line, text.len() as int);
        assert(line.subrange(0, text.len() as int) =~= text);
        assert(spec_trim(line) == text);
    } else {
        lemma_trim_start(line, 1);
        assert(line.subrange(1, 1) =~= Seq::<char>::empty());
        lemma_trim_end(Seq::<char>::empty(), 0);
        assert(Seq::<char>::empty().subrange(0, 0) =~= Seq::<char>::empty());
        assert(text =~= Seq::<char>::empty());
        assert(spec_trim(line) == text);
    }
    assert(line.subrange(0, text.len() as int) =~= text);
}

/// Trimming the start drops exactly the leading white space: what is left
/// is a suffix that is empty or starts with other than white space.
proof fn lemma_trim_start_split(s: Seq<char>) -> (i: int)
    ensures
        0 <= i <= s.len(),
        trim_start(s) == s.subrange(i, s.len() as int),
        forall|k: int| 0 <= k < i ==> is_white_space(#[trigger] s[k]),
        i < s.len() ==> !is_white_space(s[i]),
    decreases s.len(),
{
    if s.len() > 0 && is_white_space(s[0]) {
        let i0 = lemma_trim_start_split(s.drop_first());
        assert(s.drop_first().subrange(i0, s.len() - 1) =~= s.subrange(i0 + 1, s.len() as int));
        assert forall|k: int| 0 <= k < i0 + 1 implies is_white_space(#[trigger] s[k]) by {
            if k > 0 {
                assert(s[k] == s.drop_first()[k - 1]);
            }
        }
        i0 + 1
    } else {
        assert(s.subrange(0, s.len() as int) =~= s);
        0
    }
}

/// Trimming the end drops exactly the trailing white space: what is left is
/// a prefix that is empty or ends with other than white space.
proof fn lemma_trim_end_split(s: Seq<char>) -> (j: int)
    ensures
        0 <= j <= s.len(),
        trim_end(s) == s.subrange(0, j),
        forall|k: int| j <= k < s.len() ==> is_white_space(#[trigger] s[k]),
        j > 0 ==> !is_white_space(s[j - 1]),
    decreases s.len(),
{
    if s.len() > 0 && is_white_space(s.last()) {
        let j0 = lemma_trim_end_split(s.drop_last());
        assert(s.drop_last().subrange(0, j0) =~= s.subrange(0, j0));
        assert forall|k: int| j0 <= k < s.len() implies is_white_space(#[trigger] s[k]) by {
            if k < s.len() - 1 {
                assert(s[k] == s.drop_last()[k]);
            }
        }
        j0
    } else {
        assert(s.subrange(0, s.len() as int) =~= s);
        s.len() as int
    }
}

/// Trimming keeps a contiguous middle part of the text: everything cut off
/// before and after it is white space, and the part kept, unless empty,
/// starts and ends with a character that is not.
pub proof fn lemma_trim_cuts_only_white_space(s: Seq<char>)
    ensures
        exists|i: int, j: int|
            0 <= i <= j <= s.len() && spec_trim(s) == s.subrange(i, j) && (forall|k: int|
                0 <= k < i ==> is_white_space(#[trigger] s[k])) && (forall|k: int|
                j <= k < s.len() ==> is_white_space(#[trigger] s[k])) && (i < j ==> !is_white_space(s[i])
                && !is_white_space(s[j - 1])),
{
    let i = lemma_trim_start_split(s);
    let t = s.subrange(i, s.len() as int);
    let j0 = lemma_trim_end_split(t);
    let j = i + j0;
    assert(t.subrange(0, j0) =~= s.subrange(i, j));
    assert forall|k: int| j <= k < s.len() implies is_white_space(#[trigger] s[k]) by {
        assert(s[k] == t[k - i]);
    }
    if i < j {
        assert(s[j - 1] == t[j0 - 1]);
        assert(s[i] == t[0]);
    }
}

} // verus!
