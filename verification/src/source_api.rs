//! The messages the service exchanges, with their wire form: a string field
//! is written as tag, byte count and UTF-8 bytes, an integer or boolean as
//! tag and varint; a field holding its default value is not written.

use vstd::prelude::*;
use vstd::utf8::*;
use crate::wire::{
    lemma_len_delimited_layout, lemma_merge_at_end, lemma_read_small_tag, lemma_read_string_payload,
    lemma_read_u64_payload,
    lemma_read_varint_bound, lemma_varint64_len, merge_at, merge_from, read_string, read_string_at, read_u64,
    read_u64_at, skip_unknown, skip_unknown_at, string_payload, varint_bytes, varint_len,
    write_string_payload, write_varint, MergeEnd, WireError, WireMessage,
};

verus! {

/// The byte count of a string's UTF-8 form.
pub open spec fn utf8_len(text: Seq<char>) -> nat {
    encode_utf8(text).len()
}

/// A string field: nothing when the string is empty, else the tag and payload.
pub open spec fn string_field(tag: u8, text: Seq<char>) -> Seq<u8> {
    if text.len() == 0 {
        Seq::empty()
    } else {
        seq![tag] + string_payload(text)
    }
}

/// An `int64` field: nothing when zero, else the tag and the varint of the
/// value's two's-complement bits.
pub open spec fn int64_field(tag: u8, value: i64) -> Seq<u8> {
    if value == 0 {
        Seq::empty()
    } else {
        seq![tag] + varint_bytes((value as u64) as nat)
    }
}

/// The size the writer reckons for a string field.
pub open spec fn string_field_size(text: Seq<char>) -> nat {
    if text.len() == 0 {
        0
    } else {
        1 + varint_bytes(utf8_len(text)).len() + utf8_len(text)
    }
}

/// Writes a string field unless the string is empty.
fn write_string_field(out: &mut Vec<u8>, tag: u8, text: &String)
    ensures
        final(out)@ == old(out)@ + string_field(tag, text@),
{
    let t = text.as_str();
    if !t.is_empty() {
        out.push(tag);
        write_string_payload(out, t);
        assert(final(out)@ =~= old(out)@ + string_field(tag, text@));
    } else {
        assert(old(out)@ + string_field(tag, text@) =~= old(out)@);
    }
}

/// Writes an `int64` field unless the value is zero.
fn write_int64_field(out: &mut Vec<u8>, tag: u8, value: i64)
    ensures
        final(out)@ == old(out)@ + int64_field(tag, value),
{
    if value != 0 {
        out.push(tag);
        write_varint(out, value as u64);
        assert(final(out)@ =~= old(out)@ + int64_field(tag, value));
    } else {
        assert(old(out)@ + int64_field(tag, value) =~= old(out)@);
    }
}

/// The size of a string field as the writer reckons it.
fn string_field_len(text: &String) -> (n: u64)
    requires
        utf8_len(text@) <= u32::MAX,
    ensures
        n == string_field_size(text@),
        n <= 0x1_0000_000b,
{
    proof {
        lemma_varint64_len(utf8_len(text@) as u64);
    }
    let t = text.as_str();
    if t.is_empty() {
        0
    } else {
        let len = t.len();
        1 + varint_len(len as u64) + len as u64
    }
}

/// The size of an `int64` field.
fn int64_field_len(value: i64) -> (n: u64)
    ensures
        n == int64_field(1, value).len(),
        n <= 11,
{
    if value == 0 {
        0
    } else {
        1 + varint_len(value as u64)
    }
}

/// A string field's size matches its bytes when the string fits the 32-bit length.
pub proof fn lemma_string_field_size(tag: u8, text: Seq<char>)
    requires
        utf8_len(text) <= u32::MAX,
    ensures
        string_field(tag, text).len() == string_field_size(text),
{
    assert((utf8_len(text) as u32) as nat == utf8_len(text));
}

/// A non-empty string field is its tag, the varint of the string's UTF-8
/// byte count, and those bytes; the size the writer reckons for it is the
/// length of exactly that.
pub proof fn lemma_string_field_layout(tag: u8, text: Seq<char>)
    requires
        text.len() > 0,
        utf8_len(text) <= u32::MAX,
    ensures
        string_field(tag, text) == seq![tag] + varint_bytes(utf8_len(text)) + encode_utf8(text),
        string_field_size(text) == 1 + varint_bytes(utf8_len(text)).len() + encode_utf8(text).len(),
{
    lemma_len_delimited_layout(encode_utf8(text), Seq::empty());
    assert(string_field(tag, text) =~= seq![tag] + varint_bytes(utf8_len(text)) + encode_utf8(text));
}

// ---------------------------------------------------------------------------
// ResolveRequest
/// A request to resolve a URL to a node, and optionally to open a channel to it.
#[derive(Debug, Clone)]
pub struct ResolveRequest {
    pub url: String,
    pub build_channel: bool,
}

/// The value of a `ResolveRequest`.
pub struct ResolveRequestView {
    pub url: Seq<char>,
    pub build_channel: bool,
}

impl View for ResolveRequest {
    type V = ResolveRequestView;

    open spec fn view(&self) -> ResolveRequestView {
        ResolveRequestView { url: self.url@, build_channel: self.build_channel }
    }
}

impl ResolveRequestView {
    /// The value of a default request.
    pub open spec fn empty() -> Self {
        ResolveRequestView { url: Seq::empty(), build_channel: false }
    }

    /// The wire form: the URL as field 1, the flag as field 2.
    pub open spec fn wire_bytes(self) -> Seq<u8> {
        string_field(10, self.url) + (if self.build_channel {
            seq![16u8, 1u8]
        } else {
            Seq::empty()
        })
    }
}

impl Default for ResolveRequest {
    fn default() -> (r: Self)
        ensures
            r@ == ResolveRequestView::empty(),
    {
        ResolveRequest { url: String::new(), build_channel: false }
    }
}

impl WireMessage for ResolveRequest {
    open spec fn field_step(v: ResolveRequestView, s: Seq<u8>, pos: int, tag: nat) -> Result<
        (ResolveRequestView, int),
        WireError,
    > {
        if tag == 10 {
            match read_string_at(s, pos) {
                Ok((t, q)) => Ok((ResolveRequestView { url: t, build_channel: v.build_channel }, q)),
                Err(e) => Err(e),
            }
        } else if tag == 16 {
            match read_u64_at(s, pos) {
                Ok((x, q)) => Ok((ResolveRequestView { url: v.url, build_channel: x != 0 }, q)),
                Err(e) => Err(e),
            }
        } else {
            match skip_unknown_at(s, pos, tag) {
                Ok(q) => Ok((v, q)),
                Err(e) => Err(e),
            }
        }
    }

    fn merge_field(&mut self, s: &[u8], pos: usize, tag: u64) -> (r: Result<usize, WireError>) {
        if tag == 10 {
            proof {
                lemma_read_string_end(s@, pos as int);
            }
            match read_string(s, pos) {
                Ok((t, q)) => {
                    self.url = t;
                    Ok(q)
                },
                Err(e) => Err(e),
            }
        } else if tag == 16 {
            match read_u64(s, pos) {
                Ok((x, q)) => {
                    self.build_channel = x != 0;
                    Ok(q)
                },
                Err(e) => Err(e),
            }
        } else {
            skip_unknown(s, pos, tag)
        }
    }
}

impl ResolveRequest {
    /// The number of bytes `serial_with_output_stream` writes.
    pub fn compute_size(&self) -> (n: u64)
        requires
            utf8_len(self.url@) <= u32::MAX,
        ensures
            n == self@.wire_bytes().len(),
    {
        proof {
            lemma_string_field_size(10, self.url@);
        }
        let mut n = string_field_len(&self.url);
        if self.build_channel {
            n = n + 2;
        }
        n
    }

    /// Appends the wire form of the request.
    pub fn serial_with_output_stream(&self, os: &mut Vec<u8>)
        ensures
            final(os)@ == old(os)@ + self@.wire_bytes(),
    {
        let ghost start = os@;
        write_string_field(os, 10, &self.url);
        if self.build_channel {
            os.push(16);
            os.push(1);
        }
        assert(os@ =~= start + self@.wire_bytes());
    }

    /// Reads the fields of `input` into the request. Known fields overwrite
    /// their values, unknown ones are skipped; on an error the fields read
    /// before it stay merged.
    pub fn parse_from_input_stream(&mut self, input: &[u8]) -> (r: Result<(), WireError>)
        requires
            merge_at::<ResolveRequest>(old(self)@, input@, 0).1 != MergeEnd::Aborted,
        ensures
            final(self)@ == merge_at::<ResolveRequest>(old(self)@, input@, 0).0,
            match merge_at::<ResolveRequest>(old(self)@, input@, 0).1 {
                MergeEnd::Failed(e) => r == Err::<(), WireError>(e),
                _ => r is Ok,
            },
    {
        match merge_from(self, input) {
            MergeEnd::Failed(e) => Err(e),
            _ => Ok(()),
        }
    }

    /// Like `parse_from_input_stream`, for any input: `None` when a field's
    /// tag is malformed, where the stream reader gives up.
    pub fn try_parse_from_input_stream(&mut self, input: &[u8]) -> (r: Option<Result<(), WireError>>)
        ensures
            final(self)@ == merge_at::<ResolveRequest>(old(self)@, input@, 0).0,
            match merge_at::<ResolveRequest>(old(self)@, input@, 0).1 {
                MergeEnd::Finished => r == Some(Ok::<(), WireError>(())),
                MergeEnd::Failed(e) => r == Some(Err::<(), WireError>(e)),
                MergeEnd::Aborted => r is None,
            },
    {
        match merge_from(self, input) {
            MergeEnd::Finished => Some(Ok(())),
            MergeEnd::Failed(e) => Some(Err(e)),
            MergeEnd::Aborted => None,
        }
    }
}

/// A request's wire form reads back as the request.
pub proof fn lemma_resolve_request_roundtrip(v: ResolveRequestView)
    requires
        utf8_len(v.url) <= u32::MAX,
    ensures
        merge_at::<ResolveRequest>(ResolveRequestView::empty(), v.wire_bytes(), 0) == (
            v,
            MergeEnd::Finished,
        ),
{
    let start = ResolveRequestView::empty();
    let s = v.wire_bytes();
    let f1 = string_field(10, v.url);
    let f2: Seq<u8> = if v.build_channel {
        seq![16u8, 1u8]
    } else {
        Seq::empty()
    };
    assert(s == f1 + f2);
    let mid = if v.url.len() == 0 {
        start
    } else {
        ResolveRequestView { url: v.url, build_channel: false }
    };
    if v.url.len() != 0 {
        let pl = string_payload(v.url);
        lemma_read_small_tag(s, 0, 10, pl + f2);
        lemma_read_string_payload(s, 1, v.url, f2);
        assert(s.subrange(1, s.len() as int) =~= pl + f2);
    }
    assert(merge_at::<ResolveRequest>(start, s, 0) == merge_at::<ResolveRequest>(
        mid,
        s,
        f1.len() as int,
    ));
    let p = f1.len() as int;
    assert(mid.url =~= v.url);
    if v.build_channel {
        assert(s.subrange(p, s.len() as int) =~= seq![16u8] + seq![1u8]);
        lemma_read_small_tag(s, p, 16, seq![1u8]);
        assert(varint_bytes(1) =~= seq![1u8]);
        assert(s.subrange(p + 1, s.len() as int) =~= varint_bytes(1) + Seq::<u8>::empty());
        lemma_read_u64_payload(s, p + 1, 1, Seq::empty());
        assert(p + 2 == s.len());
        let w = ResolveRequestView { url: mid.url, build_channel: true };
        assert(ResolveRequest::field_step(mid, s, p + 1, 16) == Ok::<
            (ResolveRequestView, int),
            WireError,
        >((w, p + 2)));
        assert(merge_at::<ResolveRequest>(mid, s, p) == merge_at::<ResolveRequest>(w, s, p + 2));
        assert(w == v);
    } else {
        assert(p == s.len());
        assert(mid == v);
    }
    lemma_merge_at_end::<ResolveRequest>(v, s);
}

// ---------------------------------------------------------------------------
// ResolveInfo
/// The answer to a resolve request: the node's connection id and, when one
/// was asked for, the channel to it (zero where there is none).
#[derive(Debug, Clone)]
pub struct ResolveInfo {
    pub conn_id: i64,
    pub channel_id: i64,
}

/// The value of a `ResolveInfo`.
pub struct ResolveInfoView {
    pub conn_id: i64,
    pub channel_id: i64,
}

impl View for ResolveInfo {
    type V = ResolveInfoView;

    open spec fn view(&self) -> ResolveInfoView {
        ResolveInfoView { conn_id: self.conn_id, channel_id: self.channel_id }
    }
}

impl ResolveInfoView {
    /// The value of a default answer.
    pub open spec fn empty() -> Self {
        ResolveInfoView { conn_id: 0, channel_id: 0 }
    }

    /// The wire form: the connection id as field 1, the channel as field 2.
    pub open spec fn wire_bytes(self) -> Seq<u8> {
        int64_field(8, self.conn_id) + int64_field(16, self.channel_id)
    }
}

impl Default for ResolveInfo {
    fn default() -> (r: Self)
        ensures
            r@ == ResolveInfoView::empty(),
    {
        ResolveInfo { conn_id: 0, channel_id: 0 }
    }
}

impl WireMessage for ResolveInfo {
    open spec fn field_step(v: ResolveInfoView, s: Seq<u8>, pos: int, tag: nat) -> Result<
        (ResolveInfoView, int),
        WireError,
    > {
        if tag == 8 {
            match read_u64_at(s, pos) {
                Ok((x, q)) => Ok(
                    (ResolveInfoView { conn_id: (x as u64) as i64, channel_id: v.channel_id }, q),
                ),
                Err(e) => Err(e),
            }
        } else if tag == 16 {
            match read_u64_at(s, pos) {
                Ok((x, q)) => Ok(
                    (ResolveInfoView { conn_id: v.conn_id, channel_id: (x as u64) as i64 }, q),
                ),
                Err(e) => Err(e),
            }
        } else {
            match skip_unknown_at(s, pos, tag) {
                Ok(q) => Ok((v, q)),
                Err(e) => Err(e),
            }
        }
    }

    fn merge_field(&mut self, s: &[u8], pos: usize, tag: u64) -> (r: Result<usize, WireError>) {
        if tag == 8 {
            match read_u64(s, pos) {
                Ok((x, q)) => {
                    self.conn_id = x as i64;
                    Ok(q)
                },
                Err(e) => Err(e),
            }
        } else if tag == 16 {
            match read_u64(s, pos) {
                Ok((x, q)) => {
                    self.channel_id = x as i64;
                    Ok(q)
                },
                Err(e) => Err(e),
            }
        } else {
            skip_unknown(s, pos, tag)
        }
    }
}

impl ResolveInfo {
    /// The number of bytes `serial_with_output_stream` writes.
    pub fn compute_size(&self) -> (n: u64)
        ensures
            n == self@.wire_bytes().len(),
    {
        int64_field_len(self.conn_id) + int64_field_len(self.channel_id)
    }

    /// Appends the wire form of the answer.
    pub fn serial_with_output_stream(&self, os: &mut Vec<u8>)
        ensures
            final(os)@ == old(os)@ + self@.wire_bytes(),
    {
        let ghost start = os@;
        write_int64_field(os, 8, self.conn_id);
        write_int64_field(os, 16, self.channel_id);
        assert(os@ =~= start + self@.wire_bytes());
    }

    /// Reads the fields of `input` into the answer, as
    /// `ResolveRequest::parse_from_input_stream` does for a request.
    pub fn parse_from_input_stream(&mut self, input: &[u8]) -> (r: Result<(), WireError>)
        requires
            merge_at::<ResolveInfo>(old(self)@, input@, 0).1 != MergeEnd::Aborted,
        ensures
            final(self)@ == merge_at::<ResolveInfo>(old(self)@, input@, 0).0,
            match merge_at::<ResolveInfo>(old(self)@, input@, 0).1 {
                MergeEnd::Failed(e) => r == Err::<(), WireError>(e),
                _ => r is Ok,
            },
    {
        match merge_from(self, input) {
            MergeEnd::Failed(e) => Err(e),
            _ => Ok(()),
        }
    }

    /// Like `parse_from_input_stream`, for any input: `None` when a field's
    /// tag is malformed, where the stream reader gives up.
    pub fn try_parse_from_input_stream(&mut self, input: &[u8]) -> (r: Option<Result<(), WireError>>)
        ensures
            final(self)@ == merge_at::<ResolveInfo>(old(self)@, input@, 0).0,
            match merge_at::<ResolveInfo>(old(self)@, input@, 0).1 {
                MergeEnd::Finished => r == Some(Ok::<(), WireError>(())),
                MergeEnd::Failed(e) => r == Some(Err::<(), WireError>(e)),
                MergeEnd::Aborted => r is None,
            },
    {
        match merge_from(self, input) {
            MergeEnd::Finished => Some(Ok(())),
            MergeEnd::Failed(e) => Some(Err(e)),
            MergeEnd::Aborted => None,
        }
    }
}

proof fn lemma_i64_bits(v: i64)
    ensures
        ((v as u64) as i64) == v,
{
    assert(((v as u64) as i64) == v) by (bit_vector);
}

/// An answer's wire form reads back as the answer.
pub proof fn lemma_resolve_info_roundtrip(v: ResolveInfoView)
    ensures
        merge_at::<ResolveInfo>(ResolveInfoView::empty(), v.wire_bytes(), 0) == (
            v,
            MergeEnd::Finished,
        ),
{
    let start = ResolveInfoView::empty();
    let s = v.wire_bytes();
    let f1 = int64_field(8, v.conn_id);
    let f2 = int64_field(16, v.channel_id);
    let mid = ResolveInfoView { conn_id: v.conn_id, channel_id: 0 };
    if v.conn_id != 0 {
        let vb = varint_bytes((v.conn_id as u64) as nat);
        assert(s.subrange(0, s.len() as int) =~= seq![8u8] + (vb + f2));
        lemma_read_small_tag(s, 0, 8, vb + f2);
        assert(s.subrange(1, s.len() as int) =~= vb + f2);
        lemma_read_u64_payload(s, 1, v.conn_id as u64, f2);
        lemma_i64_bits(v.conn_id);
        assert(ResolveInfo::field_step(start, s, 1, 8) == Ok::<(ResolveInfoView, int), WireError>(
            (mid, f1.len() as int),
        ));
    }
    assert(merge_at::<ResolveInfo>(start, s, 0) == merge_at::<ResolveInfo>(
        mid,
        s,
        f1.len() as int,
    ));
    let p = f1.len() as int;
    if v.channel_id != 0 {
        let vb = varint_bytes((v.channel_id as u64) as nat);
        assert(s.subrange(p, s.len() as int) =~= seq![16u8] + vb);
        lemma_read_small_tag(s, p, 16, vb);
        assert(s.subrange(p + 1, s.len() as int) =~= vb + Seq::<u8>::empty());
        lemma_read_u64_payload(s, p + 1, v.channel_id as u64, Seq::empty());
        lemma_i64_bits(v.channel_id);
        assert(ResolveInfo::field_step(mid, s, p + 1, 16) == Ok::<
            (ResolveInfoView, int),
            WireError,
        >((v, s.len() as int)));
    } else {
        assert(p == s.len());
    }
    lemma_merge_at_end::<ResolveInfo>(v, s);
}

// ---------------------------------------------------------------------------
// CallResponse
/// The reply to a contract call: the hex text of its return data.
#[derive(Debug, Clone)]
pub struct CallResponse {
    pub value: String,
}

/// The value of a `CallResponse`.
pub struct CallResponseView {
    pub value: Seq<char>,
}

impl View for CallResponse {
    type V = CallResponseView;

    open spec fn view(&self) -> CallResponseView {
        CallResponseView { value: self.value@ }
    }
}

impl CallResponseView {
    /// The value of a default reply.
    pub open spec fn empty() -> Self {
        CallResponseView { value: Seq::empty() }
    }

    /// The wire form: the value as field 1.
    pub open spec fn wire_bytes(self) -> Seq<u8> {
        string_field(10, self.value)
    }
}

impl Default for CallResponse {
    fn default() -> (r: Self)
        ensures
            r@ == CallResponseView::empty(),
    {
        CallResponse { value: String::new() }
    }
}

impl WireMessage for CallResponse {
    open spec fn field_step(v: CallResponseView, s: Seq<u8>, pos: int, tag: nat) -> Result<
        (CallResponseView, int),
        WireError,
    > {
        if tag == 10 {
            match read_string_at(s, pos) {
                Ok((t, q)) => Ok((CallResponseView { value: t }, q)),
                Err(e) => Err(e),
            }
        } else {
            match skip_unknown_at(s, pos, tag) {
                Ok(q) => Ok((v, q)),
                Err(e) => Err(e),
            }
        }
    }

    fn merge_field(&mut self, s: &[u8], pos: usize, tag: u64) -> (r: Result<usize, WireError>) {
        if tag == 10 {
            proof {
                lemma_read_string_end(s@, pos as int);
            }
            match read_string(s, pos) {
                Ok((t, q)) => {
                    self.value = t;
                    Ok(q)
                },
                Err(e) => Err(e),
            }
        } else {
            skip_unknown(s, pos, tag)
        }
    }
}

impl CallResponse {
    /// The number of bytes `serial_with_output_stream` writes.
    pub fn compute_size(&self) -> (n: u64)
        requires
            utf8_len(self.value@) <= u32::MAX,
        ensures
            n == self@.wire_bytes().len(),
    {
        proof {
            lemma_string_field_size(10, self.value@);
        }
        string_field_len(&self.value)
    }

    /// Appends the wire form of the reply.
    pub fn serial_with_output_stream(&self, os: &mut Vec<u8>)
        ensures
            final(os)@ == old(os)@ + self@.wire_bytes(),
    {
        write_string_field(os, 10, &self.value);
    }

    /// Reads the fields of `input` into the reply, as
    /// `ResolveRequest::parse_from_input_stream` does for a request.
    pub fn parse_from_input_stream(&mut self, input: &[u8]) -> (r: Result<(), WireError>)
        requires
            merge_at::<CallResponse>(old(self)@, input@, 0).1 != MergeEnd::Aborted,
        ensures
            final(self)@ == merge_at::<CallResponse>(old(self)@, input@, 0).0,
            match merge_at::<CallResponse>(old(self)@, input@, 0).1 {
                MergeEnd::Failed(e) => r == Err::<(), WireError>(e),
                _ => r is Ok,
            },
    {
        match merge_from(self, input) {
            MergeEnd::Failed(e) => Err(e),
            _ => Ok(()),
        }
    }

    /// Like `parse_from_input_stream`, for any input: `None` when a field's
    /// tag is malformed, where the stream reader gives up.
    pub fn try_parse_from_input_stream(&mut self, input: &[u8]) -> (r: Option<Result<(), WireError>>)
        ensures
            final(self)@ == merge_at::<CallResponse>(old(self)@, input@, 0).0,
            match merge_at::<CallResponse>(old(self)@, input@, 0).1 {
                MergeEnd::Finished => r == Some(Ok::<(), WireError>(())),
                MergeEnd::Failed(e) => r == Some(Err::<(), WireError>(e)),
                MergeEnd::Aborted => r is None,
            },
    {
        match merge_from(self, input) {
            MergeEnd::Finished => Some(Ok(())),
            MergeEnd::Failed(e) => Some(Err(e)),
            MergeEnd::Aborted => None,
        }
    }
}

/// A reply's wire form reads back as the reply.
pub proof fn lemma_call_response_roundtrip(v: CallResponseView)
    requires
        utf8_len(v.value) <= u32::MAX,
    ensures
        merge_at::<CallResponse>(CallResponseView::empty(), v.wire_bytes(), 0) == (
            v,
            MergeEnd::Finished,
        ),
{
    let start = CallResponseView::empty();
    let s = v.wire_bytes();
    if v.value.len() != 0 {
        let pl = string_payload(v.value);
        lemma_read_small_tag(s, 0, 10, pl);
        assert(s.subrange(1, s.len() as int) =~= pl + Seq::<u8>::empty());
        lemma_read_string_payload(s, 1, v.value, Seq::empty());
        assert(merge_at::<CallResponse>(start, s, 0) == merge_at::<CallResponse>(
            v,
            s,
            s.len() as int,
        ));
    } else {
        assert(v.value =~= start.value);
    }
    lemma_merge_at_end::<CallResponse>(v, s);
}

// ---------------------------------------------------------------------------
// CallData
/// A contract call: the contract's address and the hex text of the call data.
#[derive(Debug, Clone)]
pub struct CallData {
    pub contract_addr: String,
    pub data: String,
}

/// The value of a `CallData`.
pub struct CallDataView {
    pub contract_addr: Seq<char>,
    pub data: Seq<char>,
}

impl View for CallData {
    type V = CallDataView;

    open spec fn view(&self) -> CallDataView {
        CallDataView { contract_addr: self.contract_addr@, data: self.data@ }
    }
}

impl CallDataView {
    /// The value of a default call.
    pub open spec fn empty() -> Self {
        CallDataView { contract_addr: Seq::empty(), data: Seq::empty() }
    }

    /// The wire form: the address as field 1, the data as field 2.
    pub open spec fn wire_bytes(self) -> Seq<u8> {
        string_field(10, self.contract_addr) + string_field(18, self.data)
    }
}

impl Default for CallData {
    fn default() -> (r: Self)
        ensures
            r@ == CallDataView::empty(),
    {
        CallData { contract_addr: String::new(), data: String::new() }
    }
}

impl WireMessage for CallData {
    open spec fn field_step(v: CallDataView, s: Seq<u8>, pos: int, tag: nat) -> Result<
        (CallDataView, int),
        WireError,
    > {
        if tag == 10 {
            match read_string_at(s, pos) {
                Ok((t, q)) => Ok((CallDataView { contract_addr: t, data: v.data }, q)),
                Err(e) => Err(e),
            }
        } else if tag == 18 {
            match read_string_at(s, pos) {
                Ok((t, q)) => Ok((CallDataView { contract_addr: v.contract_addr, data: t }, q)),
                Err(e) => Err(e),
            }
        } else {
            match skip_unknown_at(s, pos, tag) {
                Ok(q) => Ok((v, q)),
                Err(e) => Err(e),
            }
        }
    }

    fn merge_field(&mut self, s: &[u8], pos: usize, tag: u64) -> (r: Result<usize, WireError>) {
        if tag == 10 {
            proof {
                lemma_read_string_end(s@, pos as int);
            }
            match read_string(s, pos) {
                Ok((t, q)) => {
                    self.contract_addr = t;
                    Ok(q)
                },
                Err(e) => Err(e),
            }
        } else if tag == 18 {
            proof {
                lemma_read_string_end(s@, pos as int);
            }
            match read_string(s, pos) {
                Ok((t, q)) => {
                    self.data = t;
                    Ok(q)
                },
                Err(e) => Err(e),
            }
        } else {
            skip_unknown(s, pos, tag)
        }
    }
}

impl CallData {
    /// The number of bytes `serial_with_output_stream` writes.
    pub fn compute_size(&self) -> (n: u64)
        requires
            utf8_len(self.contract_addr@) <= u32::MAX,
            utf8_len(self.data@) <= u32::MAX,
        ensures
            n == self@.wire_bytes().len(),
    {
        proof {
            lemma_string_field_size(10, self.contract_addr@);
            lemma_string_field_size(18, self.data@);
        }
        string_field_len(&self.contract_addr) + string_field_len(&self.data)
    }

    /// Appends the wire form of the call.
    pub fn serial_with_output_stream(&self, os: &mut Vec<u8>)
        ensures
            final(os)@ == old(os)@ + self@.wire_bytes(),
    {
        let ghost start = os@;
        write_string_field(os, 10, &self.contract_addr);
        write_string_field(os, 18, &self.data);
        assert(os@ =~= start + self@.wire_bytes());
    }

    /// Reads the fields of `input` into the call, as
    /// `ResolveRequest::parse_from_input_stream` does for a request.
    pub fn parse_from_input_stream(&mut self, input: &[u8]) -> (r: Result<(), WireError>)
        requires
            merge_at::<CallData>(old(self)@, input@, 0).1 != MergeEnd::Aborted,
        ensures
            final(self)@ == merge_at::<CallData>(old(self)@, input@, 0).0,
            match merge_at::<CallData>(old(self)@, input@, 0).1 {
                MergeEnd::Failed(e) => r == Err::<(), WireError>(e),
                _ => r is Ok,
            },
    {
        match merge_from(self, input) {
            MergeEnd::Failed(e) => Err(e),
            _ => Ok(()),
        }
    }

    /// Like `parse_from_input_stream`, for any input: `None` when a field's
    /// tag is malformed, where the stream reader gives up.
    pub fn try_parse_from_input_stream(&mut self, input: &[u8]) -> (r: Option<Result<(), WireError>>)
        ensures
            final(self)@ == merge_at::<CallData>(old(self)@, input@, 0).0,
            match merge_at::<CallData>(old(self)@, input@, 0).1 {
                MergeEnd::Finished => r == Some(Ok::<(), WireError>(())),
                MergeEnd::Failed(e) => r == Some(Err::<(), WireError>(e)),
                MergeEnd::Aborted => r is None,
            },
    {
        match merge_from(self, input) {
            MergeEnd::Finished => Some(Ok(())),
            MergeEnd::Failed(e) => Some(Err(e)),
            MergeEnd::Aborted => None,
        }
    }
}

/// A call's wire form reads back as the call.
pub proof fn lemma_call_data_roundtrip(v: CallDataView)
    requires
        utf8_len(v.contract_addr) <= u32::MAX,
        utf8_len(v.data) <= u32::MAX,
    ensures
        merge_at::<CallData>(CallDataView::empty(), v.wire_bytes(), 0) == (v, MergeEnd::Finished),
{
    let start = CallDataView::empty();
    let s = v.wire_bytes();
    let f1 = string_field(10, v.contract_addr);
    let f2 = string_field(18, v.data);
    let mid = CallDataView { contract_addr: v.contract_addr, data: Seq::empty() };
    if v.contract_addr.len() != 0 {
        let pl = string_payload(v.contract_addr);
        assert(s.subrange(0, s.len() as int) =~= seq![10u8] + (pl + f2));
        lemma_read_small_tag(s, 0, 10, pl + f2);
        assert(s.subrange(1, s.len() as int) =~= pl + f2);
        lemma_read_string_payload(s, 1, v.contract_addr, f2);
    } else {
        assert(start.contract_addr =~= v.contract_addr);
    }
    assert(merge_at::<CallData>(start, s, 0) == merge_at::<CallData>(mid, s, f1.len() as int));
    let p = f1.len() as int;
    if v.data.len() != 0 {
        let pl = string_payload(v.data);
        assert(s.subrange(p, s.len() as int) =~= seq![18u8] + pl);
        lemma_read_small_tag(s, p, 18, pl);
        assert(s.subrange(p + 1, s.len() as int) =~= pl + Seq::<u8>::empty());
        lemma_read_string_payload(s, p + 1, v.data, Seq::empty());
        assert(CallData::field_step(mid, s, p + 1, 18) == Ok::<(CallDataView, int), WireError>(
            (v, s.len() as int),
        ));
    } else {
        assert(p == s.len());
        assert(mid.data =~= v.data);
    }
    lemma_merge_at_end::<CallData>(v, s);
}

proof fn lemma_read_string_end(s: Seq<u8>, pos: int)
    requires
        0 <= pos,
    ensures
        read_string_at(s, pos) matches Ok((_, q)) ==> pos < q <= s.len(),
{
    lemma_read_varint_bound(s, pos, 5, 15);
}

} // verus!
