//! NDJSON framing — one message per line (`\n` terminated).

use bytes::BufMut;
use vstd::prelude::*;
use vstd::string::*;

use crate::text::{cat2, cat3, dec_u64, decimal};

verus! {

/// Maximum line length in bytes. Connections that exceed this are dropped.
pub const MAX_LINE_BYTES: usize = 1048576;

/// A line that cannot be framed, or a value that cannot be written.
#[derive(Debug, Clone, PartialEq, Eq)]
pub enum CodecError {
    LineTooLong,
    Json(String),
}

impl CodecError {
    /// `line exceeded <limit> bytes`, or `json: <reason>`.
    pub fn to_text(&self) -> (s: String)
        ensures
            s@ == (match self {
                CodecError::LineTooLong => "line exceeded "@ + decimal(MAX_LINE_BYTES as nat)
                    + " bytes"@,
                CodecError::Json(why) => "json: "@ + why@,
            }),
    {
        match self {
            CodecError::LineTooLong => cat3(
                "line exceeded ",
                dec_u64(MAX_LINE_BYTES as u64).as_str(),
                " bytes",
            ),
            CodecError::Json(why) => cat2("json: ", why.as_str()),
        }
    }
}

/// The growable byte buffer that connections read into and write from.
#[verifier::external_type_specification]
#[verifier::external_body]
pub struct ExBytesMut(bytes::BytesMut);

/// The bytes a buffer holds.
pub uninterp spec fn buffered(b: bytes::BytesMut) -> Seq<u8>;

/// `BytesMut` as a slice: its bytes.
#[verifier::external_body]
fn buffer_slice(b: &bytes::BytesMut) -> (s: &[u8])
    ensures
        s@ == buffered(*b),
{
    &b[..]
}

/// `BytesMut::split_to`: takes the first `at` bytes out, leaving the rest.
/// Beyond the end it would panic.
#[verifier::external_body]
fn buffer_split_to(b: &mut bytes::BytesMut, at: usize) -> (front: bytes::BytesMut)
    requires
        at <= buffered(*old(b)).len(),
    ensures
        buffered(front) == buffered(*old(b)).take(at as int),
        buffered(*final(b)) == buffered(*old(b)).skip(at as int),
{
    b.split_to(at)
}

/// `BytesMut::truncate`: keeps the first `len` bytes, or all where there are
/// no more.
#[verifier::external_body]
fn buffer_truncate(b: &mut bytes::BytesMut, len: usize)
    ensures
        buffered(*final(b)) == (if len <= buffered(*old(b)).len() {
            buffered(*old(b)).take(len as int)
        } else {
            buffered(*old(b))
        }),
{
    b.truncate(len)
}

/// `BytesMut::put_slice`: appends bytes, growing the buffer as needed.
#[verifier::external_body]
fn buffer_put_slice(b: &mut bytes::BytesMut, src: &[u8])
    ensures
        buffered(*final(b)) == buffered(*old(b)) + src@,
{
    b.put_slice(src)
}

/// `BytesMut::put_u8`: appends one byte, growing the buffer as needed.
#[verifier::external_body]
fn buffer_put_u8(b: &mut bytes::BytesMut, n: u8)
    ensures
        buffered(*final(b)) == buffered(*old(b)).push(n),
{
    b.put_u8(n)
}

/// The compact JSON text of a value.
pub uninterp spec fn json_text(v: serde_json::Value) -> Seq<u8>;

/// `serde_json::to_vec` of a `serde_json::Value`, with the error as the text
/// that it displays. The text is only named. It is never empty, and holds
/// neither an LF nor a CR: there is no white space between the tokens, and
/// control characters inside strings are escaped. Writing a `Value` into memory
/// does not fail; it recurses over the nesting, which is taken to fit the
/// stack. That parsing the text gives the value back is not claimed: it does
/// not for every float, nor beyond a depth of nesting.
#[verifier::external_body]
fn json_bytes(v: &serde_json::Value) -> (r: Result<Vec<u8>, String>)
    ensures
        r is Ok,
        r->Ok_0@ == json_text(*v),
        r->Ok_0@.len() > 0,
        forall|k: int| 0 <= k < r->Ok_0@.len() ==> #[trigger] r->Ok_0@[k] != LF,
        forall|k: int| 0 <= k < r->Ok_0@.len() ==> #[trigger] r->Ok_0@[k] != CR,
{
    serde_json::to_vec(v).map_err(|e| e.to_string())
}

pub const LF: u8 = 10;

pub const CR: u8 = 13;

/// Where the first LF stands, or the length if there is none.
pub open spec fn line_length(s: Seq<u8>) -> nat
    decreases s.len(),
{
    if s.len() == 0 || s[0] == LF {
        0
    } else {
        1 + line_length(s.skip(1))
    }
}

/// What a line says: without its LF, and without a CR before it.
pub open spec fn line_content(line: Seq<u8>) -> Seq<u8> {
    if line.len() > 0 && line.last() == CR {
        line.drop_last()
    } else {
        line
    }
}

/// The outcome of decoding some received bytes.
pub enum Frame {
    /// A line, and the bytes after it.
    Line(Seq<u8>, Seq<u8>),
    /// No line yet; these bytes stay.
    Incomplete(Seq<u8>),
    /// The next line is too long; these bytes stay.
    TooLong(Seq<u8>),
}

/// Decodes the first line that is not blank.
pub open spec fn next_frame(s: Seq<u8>) -> Frame
    decreases s.len(),
{
    let n = line_length(s);
    if n < s.len() {
        if n + 1 > MAX_LINE_BYTES {
            Frame::TooLong(s)
        } else {
            let content = line_content(s.take(n as int));
            let rest = s.skip(n as int + 1);
            if content.len() == 0 {
                next_frame(rest)
            } else {
                Frame::Line(content, rest)
            }
        }
    } else if s.len() > MAX_LINE_BYTES {
        Frame::TooLong(s)
    } else {
        Frame::Incomplete(s)
    }
}

/// The line framer of one connection.
#[derive(Debug)]
pub struct NdjsonCodec {
    /// Next search position — the length of the prefix already known to contain no LF.
    next_index: usize,
}

proof fn lemma_line_length_from(s: Seq<u8>, i: int)
    requires
        0 <= i <= s.len(),
        forall|k: int| 0 <= k < i ==> #[trigger] s[k] != LF,
    ensures
        line_length(s) == i + line_length(s.skip(i)),
    decreases i,
{
    if i > 0 {
        lemma_line_length_from(s, i - 1);
        let t = s.skip(i - 1);
        assert(t[0] == s[i - 1]);
        assert(t.skip(1) =~= s.skip(i));
    } else {
        assert(s.skip(0) =~= s);
    }
}

proof fn lemma_line_length_at(s: Seq<u8>, i: int)
    requires
        0 <= i <= s.len(),
        forall|k: int| 0 <= k < i ==> #[trigger] s[k] != LF,
        i < s.len() ==> s[i] == LF,
    ensures
        line_length(s) == i,
{
    lemma_line_length_from(s, i);
    if i < s.len() {
        assert(s.skip(i)[0] == s[i]);
    }
}

impl NdjsonCodec {
    /// The remembered prefix of what is buffered holds no LF.
    pub closed spec fn wf(&self, s: Seq<u8>) -> bool {
        &&& self.next_index <= s.len()
        &&& forall|k: int| 0 <= k < self.next_index ==> #[trigger] s[k] != LF
    }

    /// More bytes may arrive at any time: the codec goes on from where it was.
    pub proof fn law_bytes_may_arrive(&self, s: Seq<u8>, more: Seq<u8>)
        requires
            self.wf(s),
        ensures
            self.wf(s + more),
    {
        assert forall|k: int| 0 <= k < self.next_index implies #[trigger] (s + more)[k] != LF by {
            assert((s + more)[k] == s[k]);
        }
    }

    pub fn new() -> (c: Self)
        ensures
            forall|s: Seq<u8>| c.wf(s),
    {
        NdjsonCodec { next_index: 0 }
    }

    /// Takes the next line that is not blank out of what was received.
    pub fn decode(&mut self, src: &mut bytes::BytesMut) -> (r: Result<Option<Vec<u8>>, CodecError>)
        requires
            old(self).wf(buffered(*old(src))),
        ensures
            final(self).wf(buffered(*final(src))),
            match next_frame(buffered(*old(src))) {
                Frame::Line(line, rest) => r matches Ok(Some(l)) && l@ == line && buffered(
                    *final(src),
                ) == rest,
                Frame::Incomplete(rest) => r matches Ok(None) && buffered(*final(src)) == rest,
                Frame::TooLong(rest) => r matches Err(e) && e is LineTooLong && buffered(
                    *final(src),
                ) == rest,
            },
    {
        loop
            invariant
                self.wf(buffered(*src)),
                next_frame(buffered(*src)) == next_frame(buffered(*old(src))),
            decreases buffered(*src).len(),
        {
            let ghost s = buffered(*src);
            let received = buffer_slice(src);
            let read_to: usize = received.len();
            let mut i: usize = self.next_index;
            while i < read_to && received[i] != LF
                invariant
                    i <= read_to,
                    read_to == s.len(),
                    received@ == s,
                    forall|k: int| 0 <= k < i ==> #[trigger] s[k] != LF,
                decreases read_to - i,
            {
                i = i + 1;
            }
            proof {
                lemma_line_length_at(s, i as int);
            }
            if i == read_to {
                if read_to > MAX_LINE_BYTES {
                    return Err(CodecError::LineTooLong);
                }
                self.next_index = read_to;
                return Ok(None);
            }
            if i >= MAX_LINE_BYTES {
                return Err(CodecError::LineTooLong);
            }
            let mut line = buffer_split_to(src, i + 1);
            buffer_truncate(&mut line, i);
            assert(buffered(line) =~= s.take(i as int));
            if i > 0 {
                let last: u8 = buffer_slice(&line)[i - 1];
                if last == CR {
                    buffer_truncate(&mut line, i - 1);
                    assert(buffered(line) =~= s.take(i as int).drop_last());
                }
            }
            self.next_index = 0;
            let content = vstd::slice::slice_to_vec(buffer_slice(&line));
            assert(content@ == line_content(s.take(i as int)));
            if content.len() > 0 {
                return Ok(Some(content));
            }
        }
    }

    /// Puts one serialised message on the wire: its bytes and an LF.
    pub fn encode(&mut self, message: &[u8], dst: &mut bytes::BytesMut)
        ensures
            *final(self) == *old(self),
            buffered(*final(dst)) == buffered(*old(dst)) + message@.push(LF),
    {
        buffer_put_slice(dst, message);
        buffer_put_u8(dst, LF);
        assert(buffered(*dst) =~= buffered(*old(dst)) + message@.push(LF));
    }

    /// Puts one value on the wire: its JSON text and an LF. The text frames
    /// cleanly, so a codec that decodes these bytes gives back that text and
    /// leaves what follows.
    pub fn encode_value(&mut self, v: &serde_json::Value, dst: &mut bytes::BytesMut) -> (r: Result<
        (),
        CodecError,
    >)
        ensures
            r is Ok,
            *final(self) == *old(self),
            buffered(*final(dst)) == buffered(*old(dst)) + json_text(*v).push(LF),
            json_text(*v).len() < MAX_LINE_BYTES ==> frames_cleanly(json_text(*v)),
            forall|rest: Seq<u8>|
                json_text(*v).len() < MAX_LINE_BYTES ==> #[trigger] next_frame(
                    json_text(*v).push(LF) + rest,
                ) == Frame::Line(json_text(*v), rest),
    {
        match json_bytes(v) {
            Ok(text) => {
                assert forall|rest: Seq<u8>|
                    json_text(*v).len() < MAX_LINE_BYTES implies #[trigger] next_frame(
                    json_text(*v).push(LF) + rest,
                ) == Frame::Line(json_text(*v), rest) by {
                    law_framing_round_trip(json_text(*v), rest);
                }
                self.encode(text.as_slice(), dst);
                Ok(())
            },
            Err(why) => Err(CodecError::Json(why)),
        }
    }
}

/// Bytes that pass the framing unchanged: no line break inside, no CR at the
/// end, not blank, and within the length limit.
pub open spec fn frames_cleanly(message: Seq<u8>) -> bool {
    &&& 0 < message.len() < MAX_LINE_BYTES
    &&& forall|k: int| 0 <= k < message.len() ==> #[trigger] message[k] != LF
    &&& message.last() != CR
}

/// What is encoded is decoded: a message put on the wire comes out as it was,
/// and what follows it stays for the next call.
pub proof fn law_framing_round_trip(message: Seq<u8>, rest: Seq<u8>)
    requires
        frames_cleanly(message),
    ensures
        next_frame(message.push(LF) + rest) == Frame::Line(message, rest),
{
    let s = message.push(LF) + rest;
    let n = message.len() as int;
    assert forall|k: int| 0 <= k < n implies #[trigger] s[k] != LF by {
        assert(s[k] == message[k]);
    }
    assert(s[n] == LF);
    lemma_line_length_at(s, n);
    assert(s.take(n) =~= message);
    assert(s.skip(n + 1) =~= rest);
}

/// Until its LF arrives, a message yields nothing and loses nothing, however
/// it is split across reads.
pub proof fn law_partial_line_waits(message: Seq<u8>, cut: int)
    requires
        frames_cleanly(message),
        0 <= cut <= message.len(),
    ensures
        next_frame(message.take(cut)) == Frame::Incomplete(message.take(cut)),
{
    let s = message.take(cut);
    assert forall|k: int| 0 <= k < s.len() implies #[trigger] s[k] != LF by {
        assert(s[k] == message[k]);
    }
    lemma_line_length_at(s, cut);
}

/// Blank lines, with or without a CR, are skipped.
pub proof fn law_blank_lines_skipped(rest: Seq<u8>)
    ensures
        next_frame(seq![LF] + rest) == next_frame(rest),
        next_frame(seq![CR, LF] + rest) == next_frame(rest),
{
    let a = seq![LF] + rest;
    lemma_line_length_at(a, 0);
    assert(a.skip(1) =~= rest);
    let b = seq![CR, LF] + rest;
    assert(b[0] == CR && b[1] == LF);
    lemma_line_length_at(b, 1);
    assert(b.take(1) =~= seq![CR]);
    assert(b.skip(2) =~= rest);
}

// ---------- Many lines, many reads ----------

/// What comes out of some received bytes when they are decoded until nothing
/// more does.
pub struct Drained {
    /// The lines, in order.
    pub lines: Seq<Seq<u8>>,
    /// The bytes that stay.
    pub rest: Seq<u8>,
    /// Decoding stopped at a line that is too long.
    pub too_long: bool,
}

/// Decodes until no line comes out.
pub open spec fn drained(s: Seq<u8>) -> Drained
    decreases s.len(),
    via drained_decreases
{
    match next_frame(s) {
        Frame::Line(line, rest) => {
            let more = drained(rest);
            Drained { lines: seq![line] + more.lines, ..more }
        },
        Frame::Incomplete(rest) => Drained { lines: Seq::empty(), rest, too_long: false },
        Frame::TooLong(rest) => Drained { lines: Seq::empty(), rest, too_long: true },
    }
}

#[via_fn]
proof fn drained_decreases(s: Seq<u8>) {
    lemma_line_leaves_less(s);
}

proof fn lemma_line_leaves_less(s: Seq<u8>)
    ensures
        next_frame(s) matches Frame::Line(_, rest) ==> rest.len() < s.len(),
    decreases s.len(),
{
    let n = line_length(s) as int;
    if n < s.len() && n + 1 <= MAX_LINE_BYTES {
        lemma_line_leaves_less(s.skip(n + 1));
    }
}

/// Decodes after each piece that arrives, `left` being what stayed before.
pub open spec fn received(left: Seq<u8>, pieces: Seq<Seq<u8>>) -> Drained
    decreases pieces.len(),
{
    if pieces.len() == 0 {
        drained(left)
    } else {
        let now = drained(left + pieces.first());
        let later = received(now.rest, pieces.drop_first());
        Drained {
            lines: now.lines + later.lines,
            rest: later.rest,
            too_long: now.too_long || later.too_long,
        }
    }
}

proof fn lemma_line_length(s: Seq<u8>)
    ensures
        line_length(s) <= s.len(),
        forall|k: int| 0 <= k < line_length(s) ==> #[trigger] s[k] != LF,
        line_length(s) < s.len() ==> s[line_length(s) as int] == LF,
    decreases s.len(),
{
    if s.len() > 0 && s[0] != LF {
        let t = s.skip(1);
        lemma_line_length(t);
        assert forall|k: int| 0 <= k < line_length(s) implies #[trigger] s[k] != LF by {
            if k > 0 {
                assert(s[k] == t[k - 1]);
            }
        }
        if line_length(s) < s.len() {
            assert(s[line_length(s) as int] == t[line_length(t) as int]);
        }
    }
}

/// What bytes `a` followed by `b` give is what `a` gives, and then what it
/// leaves followed by `b`.
proof fn lemma_drained_append(a: Seq<u8>, b: Seq<u8>)
    ensures
        drained(a + b).lines == drained(a).lines + drained(drained(a).rest + b).lines,
        drained(a + b).rest == drained(drained(a).rest + b).rest,
        drained(a + b).too_long == drained(drained(a).rest + b).too_long,
        drained(a).too_long ==> drained(a + b).too_long,
    decreases a.len(),
{
    let s = a + b;
    let n = line_length(a) as int;
    lemma_line_length(a);
    assert forall|k: int| 0 <= k < n implies #[trigger] s[k] != LF by {
        assert(s[k] == a[k]);
    }
    if n < a.len() {
        assert(s[n] == a[n]);
        lemma_line_length_at(s, n);
        if n + 1 <= MAX_LINE_BYTES {
            let rest = a.skip(n + 1);
            assert(s.take(n) =~= a.take(n));
            assert(s.skip(n + 1) =~= rest + b);
            lemma_drained_append(rest, b);
            let tail = drained(drained(rest).rest + b).lines;
            let content = line_content(a.take(n));
            if content.len() > 0 {
                assert(drained(a).lines == seq![content] + drained(rest).lines);
                assert(drained(s).lines == seq![content] + drained(rest + b).lines);
                assert(seq![content] + (drained(rest).lines + tail) =~= (seq![content] + drained(
                    rest,
                ).lines) + tail);
            }
        }
    } else {
        lemma_line_length_from(s, n);
    }
    assert(Seq::<Seq<u8>>::empty() + drained(s).lines =~= drained(s).lines);
}

/// However the received bytes are cut into pieces, inside a line too, decoding
/// after each piece gives the same lines, leaves the same rest and fails on the
/// same input as decoding everything at once.
pub proof fn law_cuts_make_no_difference(left: Seq<u8>, pieces: Seq<Seq<u8>>)
    ensures
        received(left, pieces) == drained(left + pieces.flatten()),
    decreases pieces.len(),
{
    if pieces.len() == 0 {
        assert(left + pieces.flatten() =~= left);
    } else {
        let a = left + pieces.first();
        let b = pieces.drop_first().flatten();
        assert(left + pieces.flatten() =~= a + b);
        law_cuts_make_no_difference(drained(a).rest, pieces.drop_first());
        lemma_drained_append(a, b);
    }
}

/// What the complete lines of some bytes say, in order; blank lines say
/// nothing.
pub open spec fn complete_lines(s: Seq<u8>) -> Seq<Seq<u8>>
    decreases s.len(),
{
    let n = line_length(s) as int;
    if n < s.len() {
        let content = line_content(s.take(n));
        (if content.len() == 0 {
            Seq::empty()
        } else {
            seq![content]
        }) + complete_lines(s.skip(n + 1))
    } else {
        Seq::empty()
    }
}

/// What follows the last LF.
pub open spec fn unterminated(s: Seq<u8>) -> Seq<u8>
    decreases s.len(),
{
    let n = line_length(s) as int;
    if n < s.len() {
        unterminated(s.skip(n + 1))
    } else {
        s
    }
}

/// No complete line is longer, with its LF, than the limit.
pub open spec fn lines_fit(s: Seq<u8>) -> bool
    decreases s.len(),
{
    let n = line_length(s) as int;
    n < s.len() ==> n + 1 <= MAX_LINE_BYTES && lines_fit(s.skip(n + 1))
}

/// One line comes out per complete line that is not blank, in order, without
/// its LF and a CR before it; what follows the last LF stays, and fails only
/// where it is over the limit by itself.
pub proof fn law_lines_in_order(s: Seq<u8>)
    requires
        lines_fit(s),
    ensures
        drained(s).lines == complete_lines(s),
        drained(s).rest == unterminated(s),
        drained(s).too_long == (unterminated(s).len() > MAX_LINE_BYTES),
    decreases s.len(),
{
    let n = line_length(s) as int;
    if n < s.len() {
        let rest = s.skip(n + 1);
        law_lines_in_order(rest);
        assert(Seq::<Seq<u8>>::empty() + complete_lines(rest) =~= complete_lines(rest));
    }
}

/// The bytes that encoding some messages puts on the wire.
pub open spec fn on_wire(messages: Seq<Seq<u8>>) -> Seq<u8>
    decreases messages.len(),
{
    if messages.len() == 0 {
        Seq::empty()
    } else {
        messages.first().push(LF) + on_wire(messages.drop_first())
    }
}

/// Messages put on the wire come out as they were, in order, with nothing left
/// over, however the bytes are cut on their way.
pub proof fn law_messages_survive_any_cut(messages: Seq<Seq<u8>>, pieces: Seq<Seq<u8>>)
    requires
        forall|i: int| 0 <= i < messages.len() ==> frames_cleanly(#[trigger] messages[i]),
        pieces.flatten() == on_wire(messages),
    ensures
        received(Seq::empty(), pieces) == (Drained {
            lines: messages,
            rest: Seq::empty(),
            too_long: false,
        }),
{
    law_cuts_make_no_difference(Seq::empty(), pieces);
    assert(Seq::<u8>::empty() + pieces.flatten() =~= pieces.flatten());
    lemma_drained_on_wire(messages);
}

proof fn lemma_drained_on_wire(messages: Seq<Seq<u8>>)
    requires
        forall|i: int| 0 <= i < messages.len() ==> frames_cleanly(#[trigger] messages[i]),
    ensures
        drained(on_wire(messages)) == (Drained {
            lines: messages,
            rest: Seq::empty(),
            too_long: false,
        }),
    decreases messages.len(),
{
    if messages.len() == 0 {
        assert(line_length(on_wire(messages)) == 0);
        assert(messages =~= Seq::empty());
    } else {
        let rest = messages.drop_first();
        assert forall|i: int| 0 <= i < rest.len() implies frames_cleanly(#[trigger] rest[i]) by {
            assert(rest[i] == messages[i + 1]);
        }
        lemma_drained_on_wire(rest);
        assert(frames_cleanly(messages[0]));
        law_framing_round_trip(messages.first(), on_wire(rest));
        assert(seq![messages.first()] + rest =~= messages);
    }
}

/// A line may have 1048576 bytes with its LF and no more: one that is longer is
/// refused, whether or not its end has come, and nothing is lost of it. A
/// shorter one is given without its LF and a CR before that, and what follows
/// stays. Without a line end nothing is given and nothing lost.
pub proof fn law_decoding(
    codec: &mut NdjsonCodec,
    src: &mut bytes::BytesMut,
    line: Seq<u8>,
    rest: Seq<u8>,
    r: Result<Option<Vec<u8>>, CodecError>,
)
    requires
        call_ensures(NdjsonCodec::decode, (codec, src), r),
        forall|k: int| 0 <= k < line.len() ==> #[trigger] line[k] != 0x0a,
    ensures
        buffered(*old(src)) == line + seq![0x0au8] + rest && 0 < line.len() < 1048576
            && line.last() != 0x0d ==> (r matches Ok(Some(l)) && l@ == line) && buffered(
            *final(src),
        ) == rest,
        buffered(*old(src)) == line + seq![0x0du8, 0x0au8] + rest && 0 < line.len() < 1048575 ==> (
        r matches Ok(Some(l)) && l@ == line) && buffered(*final(src)) == rest,
        buffered(*old(src)) == line + seq![0x0au8] + rest && line.len() >= 1048576 ==> r is Err
            && buffered(*final(src)) == buffered(*old(src)),
        buffered(*old(src)) == line && line.len() <= 1048576 ==> r == Ok::<
            Option<Vec<u8>>,
            CodecError,
        >(None) && buffered(*final(src)) == line,
        buffered(*old(src)) == line && line.len() > 1048576 ==> r is Err && buffered(*final(src))
            == line,
{
    assert(LF == 0x0a && CR == 0x0d && MAX_LINE_BYTES == 1048576);
    let s = buffered(*old(src));
    let n = line.len() as int;
    if s == line + seq![0x0au8] + rest {
        assert(s[n] == 0x0a);
        assert forall|k: int| 0 <= k < n implies #[trigger] s[k] != LF by {
            assert(s[k] == line[k]);
        }
        lemma_line_length_at(s, n);
        assert(s.take(n) =~= line);
        assert(s.skip(n + 1) =~= rest);
    }
    if s == line + seq![0x0du8, 0x0au8] + rest {
        assert(s[n] == 0x0d && s[n + 1] == 0x0a);
        assert forall|k: int| 0 <= k < n + 1 implies #[trigger] s[k] != LF by {
            if k < n {
                assert(s[k] == line[k]);
            }
        }
        lemma_line_length_at(s, n + 1);
        assert(s.take(n + 1) =~= line.push(0x0d));
        assert(line.push(0x0d).drop_last() =~= line);
        assert(s.skip(n + 2) =~= rest);
    }
    if s == line {
        lemma_line_length_at(s, n);
    }
}

/// What is put on the wire is the message and one LF, behind what is there.
pub proof fn law_encoding(codec: &mut NdjsonCodec, message: &[u8], dst: &mut bytes::BytesMut)
    requires
        call_ensures(NdjsonCodec::encode, (codec, message, dst), ()),
    ensures
        buffered(*final(dst)) == buffered(*old(dst)) + (message@ + seq![0x0au8]),
{
    assert(LF == 0x0a);
    assert(message@.push(LF) =~= message@ + seq![0x0au8]);
}

} // verus!
