//! Primitives of the protocol-buffer wire format: base-128 varints,
//! length-delimited byte runs and the skipping of unknown fields.

use vstd::prelude::*;
use vstd::utf8::*;

verus! {

/// Why reading a message from its wire form failed.
#[derive(Debug, Clone, Copy, PartialEq, Eq, Structural)]
pub enum WireError {
    /// The input ended inside a field.
    Truncated,
    /// A varint was longer than its type allows.
    IncorrectVarint,
    /// A string field did not hold UTF-8.
    InvalidUtf8,
    /// A tag inside a group had an invalid wire type or field number zero.
    IncorrectTag,
    /// An end-group marker stood where a field was expected.
    UnexpectedEndGroup,
    /// Groups were nested more deeply than the reader allows.
    RecursionLimit,
    /// An unknown field carried a wire type that does not exist.
    UnknownWireType,
}

/// Nesting depth of groups that the reader accepts.
pub const GROUP_DEPTH_LIMIT: u32 = 100;

/// The base-128 (LEB128) encoding of `v`: seven bits per byte, least
/// significant group first, the high bit set on every byte but the last.
pub open spec fn varint_bytes(v: nat) -> Seq<u8>
    decreases v,
{
    if v < 128 {
        seq![v as u8]
    } else {
        seq![((v % 128) + 128) as u8] + varint_bytes(v / 128)
    }
}

/// What reading a varint at some position gives.
pub enum VarintOutcome {
    /// The value and the number of bytes it took.
    Value(nat, nat),
    /// The varint was longer than its type allows.
    Malformed,
    /// The input ended inside the varint.
    Incomplete,
}

/// Reads a varint at `pos` of `s`, taking at most `budget` bytes; the last
/// byte the budget allows is taken whole and may not exceed `last_max`.
/// A 64-bit varint has budget 10 and `last_max` 1, a 32-bit one budget 5 and
/// `last_max` 15.
pub open spec fn read_varint_at(s: Seq<u8>, pos: int, budget: nat, last_max: u8) -> VarintOutcome
    decreases budget,
{
    if budget == 0 {
        VarintOutcome::Malformed
    } else if pos < 0 || pos >= s.len() {
        VarintOutcome::Incomplete
    } else if budget == 1 {
        if s[pos] > last_max {
            VarintOutcome::Malformed
        } else {
            VarintOutcome::Value(s[pos] as nat, 1)
        }
    } else if s[pos] < 128 {
        VarintOutcome::Value(s[pos] as nat, 1)
    } else {
        match read_varint_at(s, pos + 1, (budget - 1) as nat, last_max) {
            VarintOutcome::Value(v, n) => VarintOutcome::Value(
                (s[pos] - 128) as nat + 128 * v,
                n + 1,
            ),
            other => other,
        }
    }
}

/// A 64-bit varint at `pos`.
pub open spec fn read_varint64_at(s: Seq<u8>, pos: int) -> VarintOutcome {
    read_varint_at(s, pos, 10, 1)
}

/// A 32-bit varint at `pos`.
pub open spec fn read_varint32_at(s: Seq<u8>, pos: int) -> VarintOutcome {
    read_varint_at(s, pos, 5, 15)
}

/// One more than the largest value a varint of the given budget can hold.
pub open spec fn varint_cap(budget: nat, last_max: u8) -> nat
    decreases budget,
{
    if budget <= 1 {
        (last_max + 1) as nat
    } else {
        128 * varint_cap((budget - 1) as nat, last_max)
    }
}

/// Every value read stays below the budget's cap, and takes at most the budget.
pub proof fn lemma_read_varint_bound(s: Seq<u8>, pos: int, budget: nat, last_max: u8)
    ensures
        read_varint_at(s, pos, budget, last_max) matches VarintOutcome::Value(v, n) ==> {
            &&& v < varint_cap(budget, last_max)
            &&& 1 <= n <= budget
            &&& pos + n <= s.len()
            &&& 0 <= pos
        },
    decreases budget,
{
    if budget > 1 && 0 <= pos < s.len() && s[pos] >= 128 {
        lemma_read_varint_bound(s, pos + 1, (budget - 1) as nat, last_max);
        lemma_varint_cap_pos((budget - 1) as nat, last_max);
    }
    if budget >= 1 {
        lemma_varint_cap_pos(budget, last_max);
    }
    if budget > 1 {
        lemma_varint_cap_ge(budget, last_max);
    }
}

proof fn lemma_varint_cap_pos(budget: nat, last_max: u8)
    ensures
        varint_cap(budget, last_max) >= 1,
    decreases budget,
{
    if budget > 1 {
        lemma_varint_cap_pos((budget - 1) as nat, last_max);
    }
}

proof fn lemma_varint_cap_ge(budget: nat, last_max: u8)
    requires
        budget > 1,
    ensures
        varint_cap(budget, last_max) >= 128,
    decreases budget,
{
    lemma_varint_cap_pos((budget - 1) as nat, last_max);
}

/// Caps grow with the budget.
proof fn lemma_varint_cap_mono(a: nat, b: nat, last_max: u8)
    requires
        1 <= a <= b,
    ensures
        varint_cap(a, last_max) <= varint_cap(b, last_max),
    decreases b,
{
    if a < b {
        lemma_varint_cap_mono(a, (b - 1) as nat, last_max);
        lemma_varint_cap_pos((b - 1) as nat, last_max);
    }
}

/// The caps of the two varint widths are 2^64 and 2^32.
pub proof fn lemma_varint_caps()
    ensures
        varint_cap(10, 1) == 0x1_0000_0000_0000_0000,
        varint_cap(5, 15) == 0x1_0000_0000,
{
    reveal_with_fuel(varint_cap, 11);
}

/// The encoding of a value below the cap reads back as that value, whatever follows it.
pub proof fn lemma_varint_roundtrip(v: nat, rest: Seq<u8>, budget: nat, last_max: u8)
    requires
        budget >= 1,
        last_max < 128,
        v < varint_cap(budget, last_max),
    ensures
        read_varint_at(varint_bytes(v) + rest, 0, budget, last_max) == VarintOutcome::Value(
            v,
            varint_bytes(v).len(),
        ),
    decreases budget,
{
    let s = varint_bytes(v) + rest;
    if v < 128 {
        assert(s[0] == v as u8);
        if budget == 1 {
            assert(v < last_max + 1);
        }
    } else {
        if budget == 1 {
            assert(false);
        }
        let tail = varint_bytes(v / 128) + rest;
        assert(s =~= seq![((v % 128) + 128) as u8] + tail);
        assert(v / 128 < varint_cap((budget - 1) as nat, last_max));
        lemma_varint_roundtrip(v / 128, rest, (budget - 1) as nat, last_max);
        lemma_read_varint_shift(s, tail, (budget - 1) as nat, last_max);
    }
}

/// Reading at position 1 of `s` is reading at 0 of `s` without its first byte.
proof fn lemma_read_varint_shift(s: Seq<u8>, tail: Seq<u8>, budget: nat, last_max: u8)
    requires
        s.len() >= 1,
        tail =~= s.subrange(1, s.len() as int),
    ensures
        read_varint_at(s, 1, budget, last_max) == read_varint_at(tail, 0, budget, last_max),
{
    lemma_read_varint_offset(s, tail, 1, 0, budget, last_max);
}

/// Reading a varint depends only on the bytes from its position on.
pub proof fn lemma_read_varint_offset(
    s: Seq<u8>,
    t: Seq<u8>,
    ps: int,
    pt: int,
    budget: nat,
    last_max: u8,
)
    requires
        0 <= ps <= s.len(),
        0 <= pt <= t.len(),
        s.subrange(ps, s.len() as int) =~= t.subrange(pt, t.len() as int),
    ensures
        read_varint_at(s, ps, budget, last_max) == read_varint_at(t, pt, budget, last_max),
    decreases budget,
{
    assert(s.len() - ps == t.len() - pt) by {
        assert(s.subrange(ps, s.len() as int).len() == t.subrange(pt, t.len() as int).len());
    }
    if budget > 0 && ps < s.len() {
        assert(s[ps] == s.subrange(ps, s.len() as int)[0]);
        assert(t[pt] == t.subrange(pt, t.len() as int)[0]);
        if budget > 1 {
            assert(s.subrange(ps + 1, s.len() as int) =~= t.subrange(pt + 1, t.len() as int)) by {
                assert forall|i: int| 0 <= i < s.len() - ps - 1 implies #[trigger] s.subrange(
                    ps + 1,
                    s.len() as int,
                )[i] == t.subrange(pt + 1, t.len() as int)[i] by {
                    assert(s[ps + 1 + i] == s.subrange(ps, s.len() as int)[i + 1]);
                    assert(t[pt + 1 + i] == t.subrange(pt, t.len() as int)[i + 1]);
                }
            }
            lemma_read_varint_offset(s, t, ps + 1, pt + 1, (budget - 1) as nat, last_max);
        }
    } else if budget > 0 {
        assert(t.subrange(pt, t.len() as int).len() == 0);
    }
}

/// What a varint read gives in executable code.
#[derive(Debug, Clone, Copy, PartialEq, Eq, Structural)]
pub enum VarintRead {
    Value(u64, usize),
    Malformed,
    Incomplete,
}

impl VarintRead {
    pub open spec fn matches_outcome(self, o: VarintOutcome) -> bool {
        match (self, o) {
            (VarintRead::Value(v, n), VarintOutcome::Value(w, m)) => v == w && n == m,
            (VarintRead::Malformed, VarintOutcome::Malformed) => true,
            (VarintRead::Incomplete, VarintOutcome::Incomplete) => true,
            _ => false,
        }
    }
}

/// Reads a varint at `pos`, as `read_varint_at` describes.
pub fn read_varint(s: &[u8], pos: usize, budget: u8, last_max: u8) -> (r: VarintRead)
    requires
        1 <= budget <= 10,
        last_max < 128,
        varint_cap(budget as nat, last_max) <= 0x1_0000_0000_0000_0000,
    ensures
        r.matches_outcome(read_varint_at(s@, pos as int, budget as nat, last_max)),
    decreases budget,
{
    if pos >= s.len() {
        return VarintRead::Incomplete;
    }
    let b = s[pos];
    if budget == 1 {
        if b > last_max {
            VarintRead::Malformed
        } else {
            VarintRead::Value(b as u64, 1)
        }
    } else if b < 128 {
        VarintRead::Value(b as u64, 1)
    } else {
        proof {
            lemma_varint_cap_mono((budget - 1) as nat, budget as nat, last_max);
        }
        match read_varint(s, pos + 1, budget - 1, last_max) {
            VarintRead::Value(v, n) => {
                proof {
                    lemma_read_varint_bound(s@, pos + 1, (budget - 1) as nat, last_max);
                    assert(128 * v + 127 < 128 * varint_cap((budget - 1) as nat, last_max));
                }
                VarintRead::Value((b - 128) as u64 + 128 * v, n + 1)
            },
            VarintRead::Malformed => VarintRead::Malformed,
            VarintRead::Incomplete => VarintRead::Incomplete,
        }
    }
}

/// Appends the varint encoding of `v`.
pub fn write_varint(out: &mut Vec<u8>, v: u64)
    ensures
        final(out)@ == old(out)@ + varint_bytes(v as nat),
{
    let ghost start = out@;
    let mut x = v;
    while x >= 128
        invariant
            out@ + varint_bytes(x as nat) == start + varint_bytes(v as nat),
        decreases x,
    {
        let ghost before = out@;
        out.push(((x % 128) + 128) as u8);
        proof {
            assert(varint_bytes(x as nat) == seq![((x % 128) + 128) as u8] + varint_bytes(
                (x / 128) as nat,
            ));
            assert(out@ + varint_bytes((x / 128) as nat) =~= before + varint_bytes(x as nat));
        }
        x = x / 128;
    }
    out.push(x as u8);
    proof {
        assert(varint_bytes(x as nat) == seq![x as u8]);
        assert(out@ =~= start + varint_bytes(v as nat));
    }
}

/// The encoding of a 64-bit value takes between one and ten bytes.
pub proof fn lemma_varint64_len(v: u64)
    ensures
        1 <= varint_bytes(v as nat).len() <= 10,
{
    lemma_varint_caps();
    lemma_varint_roundtrip(v as nat, Seq::empty(), 10, 1);
    lemma_read_varint_bound(varint_bytes(v as nat) + Seq::empty(), 0, 10, 1);
}

/// The number of bytes the varint encoding of `v` takes.
pub fn varint_len(v: u64) -> (n: u64)
    ensures
        n == varint_bytes(v as nat).len(),
        1 <= n <= 10,
{
    proof {
        lemma_varint64_len(v);
    }
    let mut x = v;
    let mut n: u64 = 1;
    while x >= 128
        invariant
            n + varint_bytes(x as nat).len() == 1 + varint_bytes(v as nat).len(),
            1 <= n,
            varint_bytes(v as nat).len() <= 10,
        decreases x,
    {
        proof {
            assert(varint_bytes(x as nat).len() == 1 + varint_bytes((x / 128) as nat).len());
        }
        x = x / 128;
        n = n + 1;
    }
    n
}

/// A length-delimited run at `pos`: a 32-bit varint length, then that many
/// bytes; gives the bytes and the position after them.
pub open spec fn read_len_delimited_at(s: Seq<u8>, pos: int) -> Result<(Seq<u8>, int), WireError> {
    match read_varint32_at(s, pos) {
        VarintOutcome::Value(len, n) => if pos + n + len <= s.len() {
            Ok((s.subrange(pos + n, pos + n + len), pos + n + len))
        } else {
            Err(WireError::Truncated)
        },
        VarintOutcome::Malformed => Err(WireError::IncorrectVarint),
        VarintOutcome::Incomplete => Err(WireError::Truncated),
    }
}

/// A string field's payload at `pos`: a length-delimited run that must be UTF-8.
pub open spec fn read_string_at(s: Seq<u8>, pos: int) -> Result<(Seq<char>, int), WireError> {
    match read_len_delimited_at(s, pos) {
        Ok((b, p)) => if valid_utf8(b) {
            Ok((decode_utf8(b), p))
        } else {
            Err(WireError::InvalidUtf8)
        },
        Err(e) => Err(e),
    }
}

/// A 64-bit varint payload at `pos`: its value and the position after it.
pub open spec fn read_u64_at(s: Seq<u8>, pos: int) -> Result<(nat, int), WireError> {
    match read_varint64_at(s, pos) {
        VarintOutcome::Value(v, n) => Ok((v, pos + n)),
        VarintOutcome::Malformed => Err(WireError::IncorrectVarint),
        VarintOutcome::Incomplete => Err(WireError::Truncated),
    }
}

/// The payload of a length-delimited field: the length as the writer puts
/// it (a 32-bit varint of the byte count), then the bytes.
pub open spec fn len_delimited_bytes(b: Seq<u8>) -> Seq<u8> {
    varint_bytes((b.len() as u32) as nat) + b
}

/// The payload of a string field.
pub open spec fn string_payload(text: Seq<char>) -> Seq<u8> {
    len_delimited_bytes(encode_utf8(text))
}

/// A length-delimited run is the varint of its byte count followed by the
/// bytes: the writer lays it out so, and the reader reading it, whatever
/// follows, gives back exactly those bytes and the position after them.
pub proof fn lemma_len_delimited_layout(b: Seq<u8>, rest: Seq<u8>)
    requires
        b.len() <= u32::MAX,
    ensures
        len_delimited_bytes(b) == varint_bytes(b.len()) + b,
        read_len_delimited_at(varint_bytes(b.len()) + b + rest, 0) == Ok::<(Seq<u8>, int), WireError>(
            (b, (varint_bytes(b.len()).len() + b.len()) as int),
        ),
{
    let len = b.len();
    assert((len as u32) as nat == len);
    let vb = varint_bytes(len);
    lemma_varint_caps();
    lemma_varint_roundtrip(len, b + rest, 5, 15);
    let s = vb + b + rest;
    assert(s =~= vb + (b + rest));
    assert(s.subrange(vb.len() as int, (vb.len() + len) as int) =~= b);
}

/// `String::from_utf8`: the text the bytes encode when they are valid
/// UTF-8, and `None` otherwise.
#[verifier::external_body]
fn string_from_utf8(bytes: Vec<u8>) -> (r: Option<String>)
    ensures
        r is Some <==> valid_utf8(bytes@),
        r matches Some(t) ==> t@ == decode_utf8(bytes@),
{
    match String::from_utf8(bytes) {
        Ok(t) => Some(t),
        Err(_) => None,
    }
}

/// Copies `s[start..end]`.
pub fn copy_range(s: &[u8], start: usize, end: usize) -> (r: Vec<u8>)
    requires
        start <= end <= s.len(),
    ensures
        r@ == s@.subrange(start as int, end as int),
{
    let mut r: Vec<u8> = Vec::new();
    let mut i = start;
    while i < end
        invariant
            start <= i <= end <= s.len(),
            r@ == s@.subrange(start as int, i as int),
        decreases end - i,
    {
        r.push(s[i]);
        i = i + 1;
        assert(r@ =~= s@.subrange(start as int, i as int));
    }
    r
}

/// Reads a length-delimited run at `pos`.
pub fn read_len_delimited(s: &[u8], pos: usize) -> (r: Result<(Vec<u8>, usize), WireError>)
    ensures
        match (r, read_len_delimited_at(s@, pos as int)) {
            (Ok((b, p)), Ok((c, q))) => b@ == c && p == q,
            (Err(e), Err(f)) => e == f,
            _ => false,
        },
{
    proof {
        lemma_varint_caps();
    }
    match read_varint(s, pos, 5, 15) {
        VarintRead::Value(len, n) => {
            proof {
                lemma_read_varint_bound(s@, pos as int, 5, 15);
                let o = read_varint_at(s@, pos as int, 5, 15);
                assert(o matches VarintOutcome::Value(w, m) && w == len && m == n);
                assert(pos + n <= s@.len());
                assert(s@.len() == s.len());
            }
            let start = pos + n;
            if len as usize <= s.len() - start {
                let end = start + len as usize;
                let b = copy_range(s, start, end);
                Ok((b, end))
            } else {
                Err(WireError::Truncated)
            }
        },
        VarintRead::Malformed => Err(WireError::IncorrectVarint),
        VarintRead::Incomplete => Err(WireError::Truncated),
    }
}

/// Reads a string payload at `pos`.
pub fn read_string(s: &[u8], pos: usize) -> (r: Result<(String, usize), WireError>)
    ensures
        match (r, read_string_at(s@, pos as int)) {
            (Ok((t, p)), Ok((c, q))) => t@ == c && p == q,
            (Err(e), Err(f)) => e == f,
            _ => false,
        },
{
    match read_len_delimited(s, pos) {
        Ok((b, p)) => match string_from_utf8(b) {
            Some(t) => Ok((t, p)),
            None => Err(WireError::InvalidUtf8),
        },
        Err(e) => Err(e),
    }
}

/// Reads a 64-bit varint payload at `pos`.
pub fn read_u64(s: &[u8], pos: usize) -> (r: Result<(u64, usize), WireError>)
    ensures
        match (r, read_u64_at(s@, pos as int)) {
            (Ok((v, p)), Ok((w, q))) => v == w && p == q,
            (Err(e), Err(f)) => e == f,
            _ => false,
        },
        r matches Ok((_, p)) ==> pos < p <= s.len(),
{
    proof {
        lemma_varint_caps();
    }
    match read_varint(s, pos, 10, 1) {
        VarintRead::Value(v, n) => {
            proof {
                lemma_read_varint_bound(s@, pos as int, 10, 1);
                let o = read_varint_at(s@, pos as int, 10, 1);
                assert(o matches VarintOutcome::Value(w, m) && w == v && m == n);
                assert(pos + n <= s@.len());
                assert(s@.len() == s.len());
            }
            Ok((v, pos + n))
        },
        VarintRead::Malformed => Err(WireError::IncorrectVarint),
        VarintRead::Incomplete => Err(WireError::Truncated),
    }
}

/// Appends the payload of a string field: the byte count, then the UTF-8 bytes.
pub fn write_string_payload(out: &mut Vec<u8>, text: &str)
    ensures
        final(out)@ == old(out)@ + string_payload(text@),
        encode_utf8(text@).len() <= u32::MAX ==> final(out)@ == old(out)@ + varint_bytes(
            encode_utf8(text@).len(),
        ) + encode_utf8(text@),
{
    let bytes = text.as_bytes();
    let ghost start = out@;
    write_varint(out, bytes.len() as u32 as u64);
    let ghost mid = out@;
    let mut i: usize = 0;
    while i < bytes.len()
        invariant
            i <= bytes@.len(),
            out@ == mid + bytes@.subrange(0, i as int),
        decreases bytes@.len() - i,
    {
        out.push(bytes[i]);
        i = i + 1;
        assert(out@ =~= mid + bytes@.subrange(0, i as int));
    }
    assert(out@ =~= start + string_payload(text@));
}

/// Skips the payload of a field of the given wire type at `pos`, as the
/// reader does for fields it does not know; gives the position after it.
/// Groups (wire type 3) are skipped up to their end marker, nested at most
/// `GROUP_DEPTH_LIMIT` deep; `level` counts the groups already open.
pub open spec fn skip_field_at(s: Seq<u8>, pos: int, wire_type: nat, level: nat) -> Result<
    int,
    WireError,
>
    decreases s.len() - pos, 1nat,
{
    if wire_type == 0 {
        match read_u64_at(s, pos) {
            Ok((_, p)) => Ok(p),
            Err(e) => Err(e),
        }
    } else if wire_type == 1 {
        if 0 <= pos && pos + 8 <= s.len() {
            Ok(pos + 8)
        } else {
            Err(WireError::Truncated)
        }
    } else if wire_type == 2 {
        match read_len_delimited_at(s, pos) {
            Ok((_, p)) => Ok(p),
            Err(e) => Err(e),
        }
    } else if wire_type == 3 {
        if level >= GROUP_DEPTH_LIMIT {
            Err(WireError::RecursionLimit)
        } else {
            skip_group_at(s, pos, level + 1)
        }
    } else if wire_type == 4 {
        Err(WireError::UnexpectedEndGroup)
    } else if wire_type == 5 {
        if 0 <= pos && pos + 4 <= s.len() {
            Ok(pos + 4)
        } else {
            Err(WireError::Truncated)
        }
    } else {
        Err(WireError::UnknownWireType)
    }
}

/// Skips the fields of a group up to and including its end marker (or to
/// the end of the input).
pub open spec fn skip_group_at(s: Seq<u8>, pos: int, level: nat) -> Result<int, WireError>
    decreases s.len() - pos, 0nat,
{
    if pos < 0 || pos > s.len() {
        Err(WireError::Truncated)
    } else if pos == s.len() {
        Ok(pos)
    } else {
        match read_varint32_at(s, pos) {
            VarintOutcome::Malformed => Err(WireError::IncorrectVarint),
            VarintOutcome::Incomplete => Err(WireError::Truncated),
            VarintOutcome::Value(tag, n) => {
                proof {
                    lemma_read_varint_bound(s, pos, 5, 15);
                }
                if tag % 8 > 5 || tag / 8 == 0 {
                    Err(WireError::IncorrectTag)
                } else if tag % 8 == 4 {
                    Ok(pos + n)
                } else {
                    match skip_field_at(s, pos + n, tag % 8, level) {
                        Ok(p) => if pos < p <= s.len() {
                            skip_group_at(s, p, level)
                        } else {
                            Err(WireError::Truncated)
                        },
                        Err(e) => Err(e),
                    }
                }
            },
        }
    }
}

/// Skips a field that the message does not know, given its tag: the wire
/// type is the tag's low three bits, and must be one of the six that exist.
pub open spec fn skip_unknown_at(s: Seq<u8>, pos: int, tag: nat) -> Result<int, WireError> {
    if tag % 8 > 5 {
        Err(WireError::UnknownWireType)
    } else {
        skip_field_at(s, pos, tag % 8, 0)
    }
}

/// Skips a field's payload, as `skip_field_at` describes.
pub fn skip_field(s: &[u8], pos: usize, wire_type: u64, level: u32) -> (r: Result<usize, WireError>)
    requires
        level <= GROUP_DEPTH_LIMIT,
        pos <= s.len(),
    ensures
        match r {
            Ok(p) => skip_field_at(s@, pos as int, wire_type as nat, level as nat) == Ok::<
                int,
                WireError,
            >(p as int),
            Err(e) => skip_field_at(s@, pos as int, wire_type as nat, level as nat) == Err::<
                int,
                WireError,
            >(e),
        },
        r matches Ok(p) ==> pos <= p <= s.len(),
    decreases GROUP_DEPTH_LIMIT - level, 0nat,
{
    if wire_type == 0 {
        match read_u64(s, pos) {
            Ok((_, p)) => Ok(p),
            Err(e) => Err(e),
        }
    } else if wire_type == 1 {
        if s.len() - pos >= 8 {
            Ok(pos + 8)
        } else {
            Err(WireError::Truncated)
        }
    } else if wire_type == 2 {
        match read_len_delimited(s, pos) {
            Ok((_, p)) => {
                proof {
                    lemma_len_delimited_end(s@, pos as int);
                }
                Ok(p)
            },
            Err(e) => Err(e),
        }
    } else if wire_type == 3 {
        if level >= GROUP_DEPTH_LIMIT {
            Err(WireError::RecursionLimit)
        } else {
            skip_group(s, pos, level + 1)
        }
    } else if wire_type == 4 {
        Err(WireError::UnexpectedEndGroup)
    } else if wire_type == 5 {
        if s.len() - pos >= 4 {
            Ok(pos + 4)
        } else {
            Err(WireError::Truncated)
        }
    } else {
        Err(WireError::UnknownWireType)
    }
}

proof fn lemma_len_delimited_end(s: Seq<u8>, pos: int)
    requires
        0 <= pos,
    ensures
        read_len_delimited_at(s, pos) matches Ok((_, p)) ==> pos < p <= s.len(),
{
    lemma_read_varint_bound(s, pos, 5, 15);
}

/// Skips a group's fields, as `skip_group_at` describes.
fn skip_group(s: &[u8], pos: usize, level: u32) -> (r: Result<usize, WireError>)
    requires
        1 <= level <= GROUP_DEPTH_LIMIT,
        pos <= s.len(),
    ensures
        match r {
            Ok(p) => skip_group_at(s@, pos as int, level as nat) == Ok::<int, WireError>(p as int),
            Err(e) => skip_group_at(s@, pos as int, level as nat) == Err::<int, WireError>(e),
        },
        r matches Ok(p) ==> pos <= p <= s.len(),
    decreases GROUP_DEPTH_LIMIT - level, 1nat,
{
    proof {
        lemma_varint_caps();
    }
    let mut cur = pos;
    loop
        invariant
            1 <= level <= GROUP_DEPTH_LIMIT,
            pos <= cur <= s.len(),
            skip_group_at(s@, cur as int, level as nat) == skip_group_at(
                s@,
                pos as int,
                level as nat,
            ),
            varint_cap(5, 15) == 0x1_0000_0000,
        decreases s.len() - cur,
    {
        if cur == s.len() {
            return Ok(cur);
        }
        match read_varint(s, cur, 5, 15) {
            VarintRead::Malformed => {
                return Err(WireError::IncorrectVarint);
            },
            VarintRead::Incomplete => {
                return Err(WireError::Truncated);
            },
            VarintRead::Value(tag, n) => {
                proof {
                    lemma_read_varint_bound(s@, cur as int, 5, 15);
                    let o = read_varint_at(s@, cur as int, 5, 15);
                    assert(o matches VarintOutcome::Value(w, m) && w == tag && m == n);
                    assert(s@.len() == s.len());
                }
                if tag % 8 > 5 || tag / 8 == 0 {
                    return Err(WireError::IncorrectTag);
                }
                if tag % 8 == 4 {
                    return Ok(cur + n);
                }
                match skip_field(s, cur + n, tag % 8, level) {
                    Ok(p) => {
                        cur = p;
                    },
                    Err(e) => {
                        return Err(e);
                    },
                }
            },
        }
    }
}

/// Skips a field the message does not know, as `skip_unknown_at` describes.
pub fn skip_unknown(s: &[u8], pos: usize, tag: u64) -> (r: Result<usize, WireError>)
    requires
        pos <= s.len(),
    ensures
        match r {
            Ok(p) => skip_unknown_at(s@, pos as int, tag as nat) == Ok::<int, WireError>(p as int),
            Err(e) => skip_unknown_at(s@, pos as int, tag as nat) == Err::<int, WireError>(e),
        },
        r matches Ok(p) ==> pos <= p <= s.len(),
{
    if tag % 8 > 5 {
        Err(WireError::UnknownWireType)
    } else {
        skip_field(s, pos, tag % 8, 0)
    }
}

/// How reading a message's fields ended.
#[derive(Debug, Clone, Copy, PartialEq, Eq, Structural)]
pub enum MergeEnd {
    /// Every field up to the end of the input was read.
    Finished,
    /// A field could not be read; the fields before it were merged.
    Failed(WireError),
    /// A tag at the start of a field was not a well-formed 32-bit varint: the
    /// reader has no way to go on (the stream reader treats this as a fault).
    Aborted,
}

/// What stands at the start of a field.
pub enum TagRead {
    /// The input ends here.
    End,
    /// The tag is not a well-formed 32-bit varint.
    Abort,
    /// A tag, and the position of the field's payload.
    Tag(nat, int),
}

/// Reads the tag that starts a field at `pos`, or sees the end of the input.
pub open spec fn read_tag_at(s: Seq<u8>, pos: int) -> TagRead {
    if pos >= s.len() {
        TagRead::End
    } else {
        match read_varint32_at(s, pos) {
            VarintOutcome::Value(t, n) => TagRead::Tag(t, pos + n),
            _ => TagRead::Abort,
        }
    }
}

/// A message read from the wire format field by field. Each field that the
/// message knows overwrites its value; other fields are skipped.
pub trait WireMessage: View + Sized {
    /// Reads the payload of the field with tag `tag` at `pos` into `v`:
    /// the new value and the position after the payload.
    spec fn field_step(v: Self::V, s: Seq<u8>, pos: int, tag: nat) -> Result<(Self::V, int), WireError>;

    /// Reads the payload of one field into `self`, as `field_step` describes;
    /// on failure `self` is unchanged.
    fn merge_field(&mut self, s: &[u8], pos: usize, tag: u64) -> (r: Result<usize, WireError>)
        requires
            pos <= s.len(),
        ensures
            match Self::field_step(old(self)@, s@, pos as int, tag as nat) {
                Ok((v, q)) => r == Ok::<usize, WireError>(q as usize) && final(self)@ == v && pos
                    <= q <= s.len(),
                Err(e) => r == Err::<usize, WireError>(e) && final(self)@ == old(self)@,
            },
    ;
}

/// Merges the fields at `pos` and after into `v`: the value at the end and
/// how reading ended.
pub open spec fn merge_at<M: WireMessage>(v: M::V, s: Seq<u8>, pos: int) -> (M::V, MergeEnd)
    decreases s.len() - pos,
{
    match read_tag_at(s, pos) {
        TagRead::End => (v, MergeEnd::Finished),
        TagRead::Abort => (v, MergeEnd::Aborted),
        TagRead::Tag(tag, p) => match M::field_step(v, s, p, tag) {
            Ok((w, q)) => if pos < q <= s.len() {
                merge_at::<M>(w, s, q)
            } else {
                (w, MergeEnd::Finished)
            },
            Err(e) => (v, MergeEnd::Failed(e)),
        },
    }
}

/// Merges every field of `s` into `m`, as `merge_at` from position 0 describes.
pub fn merge_from<M: WireMessage>(m: &mut M, s: &[u8]) -> (r: MergeEnd)
    ensures
        (final(m)@, r) == merge_at::<M>(old(m)@, s@, 0),
{
    proof {
        lemma_varint_caps();
    }
    let mut pos: usize = 0;
    loop
        invariant
            pos <= s.len(),
            merge_at::<M>(m@, s@, pos as int) == merge_at::<M>(old(m)@, s@, 0),
            varint_cap(5, 15) == 0x1_0000_0000,
        decreases s.len() - pos,
    {
        if pos == s.len() {
            return MergeEnd::Finished;
        }
        match read_varint(s, pos, 5, 15) {
            VarintRead::Value(tag, n) => {
                proof {
                    lemma_read_varint_bound(s@, pos as int, 5, 15);
                    let o = read_varint_at(s@, pos as int, 5, 15);
                    assert(o matches VarintOutcome::Value(w, k) && w == tag && k == n);
                    assert(s@.len() == s.len());
                }
                let p = pos + n;
                match m.merge_field(s, p, tag) {
                    Ok(q) => {
                        pos = q;
                    },
                    Err(e) => {
                        return MergeEnd::Failed(e);
                    },
                }
            },
            _ => {
                return MergeEnd::Aborted;
            },
        }
    }
}

/// A tag below 128 at `p` is read as that tag, its payload starting at `p + 1`.
pub proof fn lemma_read_small_tag(s: Seq<u8>, p: int, t: u8, rest: Seq<u8>)
    requires
        0 <= p <= s.len(),
        t < 128,
        s.subrange(p, s.len() as int) =~= seq![t] + rest,
    ensures
        read_tag_at(s, p) == TagRead::Tag(t as nat, p + 1),
{
    let s2 = seq![t] + rest;
    assert(s.subrange(p, s.len() as int).len() == s2.len());
    lemma_read_varint_offset(s, s2, p, 0, 5, 15);
    assert(s2[0] == t);
}

/// The payload of a string field reads back as the string.
pub proof fn lemma_read_string_payload(s: Seq<u8>, p: int, text: Seq<char>, rest: Seq<u8>)
    requires
        0 <= p <= s.len(),
        encode_utf8(text).len() <= u32::MAX,
        s.subrange(p, s.len() as int) =~= string_payload(text) + rest,
    ensures
        read_string_at(s, p) == Ok::<(Seq<char>, int), WireError>(
            (text, p + string_payload(text).len()),
        ),
{
    let b = encode_utf8(text);
    let len = b.len();
    assert((len as u32) as nat == len);
    let vb = varint_bytes(len);
    assert(string_payload(text) == vb + b);
    lemma_varint_caps();
    lemma_varint_roundtrip(len, b + rest, 5, 15);
    let s2 = vb + (b + rest);
    assert(s.subrange(p, s.len() as int) =~= s2);
    lemma_read_varint_offset(s, s2, p, 0, 5, 15);
    assert(s.subrange(p, s.len() as int).len() == s2.len());
    assert(s.subrange(p + vb.len(), p + vb.len() + len) =~= b) by {
        assert forall|i: int| 0 <= i < len implies #[trigger] s.subrange(
            p + vb.len(),
            p + vb.len() + len,
        )[i] == b[i] by {
            assert(s[p + vb.len() + i] == s.subrange(p, s.len() as int)[vb.len() + i]);
            assert(s2[vb.len() + i] == b[i]);
        }
    }
    encode_utf8_valid_utf8(text);
    encode_utf8_decode_utf8(text);
}

/// The varint encoding of a 64-bit value reads back as that value.
pub proof fn lemma_read_u64_payload(s: Seq<u8>, p: int, x: u64, rest: Seq<u8>)
    requires
        0 <= p <= s.len(),
        s.subrange(p, s.len() as int) =~= varint_bytes(x as nat) + rest,
    ensures
        read_u64_at(s, p) == Ok::<(nat, int), WireError>(
            (x as nat, p + varint_bytes(x as nat).len()),
        ),
{
    lemma_varint_caps();
    lemma_varint_roundtrip(x as nat, rest, 10, 1);
    let s2 = varint_bytes(x as nat) + rest;
    assert(s.subrange(p, s.len() as int).len() == s2.len());
    lemma_read_varint_offset(s, s2, p, 0, 10, 1);
}

/// Reading at the end of the input finishes without change.
pub proof fn lemma_merge_at_end<M: WireMessage>(v: M::V, s: Seq<u8>)
    ensures
        merge_at::<M>(v, s, s.len() as int) == (v, MergeEnd::Finished),
{
}

} // verus!
