//! Contract-call encoding in the Solidity ABI, through the `ethabi` crate:
//! a call is the function's four-byte selector followed by the encoded
//! arguments; a call's return data is decoded by the function's outputs.

use vstd::prelude::*;
use vstd::utf8::*;

verus! {

#[verifier::external_type_specification]
#[verifier::external_body]
pub struct ExAbiError(ethabi::Error);

/// The ABI types the registry contract uses.
#[derive(Debug, Clone, Copy, PartialEq, Eq, Structural)]
pub enum AbiType {
    Address,
    /// `bytesN`, with N the number of bytes.
    FixedBytes(usize),
    String,
    Bool,
}

/// An argument of a contract call.
#[derive(Debug, Clone)]
pub enum AbiArg {
    Address([u8; 20]),
    FixedBytes(Vec<u8>),
    Text(String),
    Bool(bool),
}

/// The value of an argument.
pub enum AbiArgView {
    Address(Seq<u8>),
    FixedBytes(Seq<u8>),
    Text(Seq<char>),
    Bool(bool),
}

impl View for AbiArg {
    type V = AbiArgView;

    open spec fn view(&self) -> AbiArgView {
        match self {
            AbiArg::Address(a) => AbiArgView::Address(a@),
            AbiArg::FixedBytes(b) => AbiArgView::FixedBytes(b@),
            AbiArg::Text(t) => AbiArgView::Text(t@),
            AbiArg::Bool(b) => AbiArgView::Bool(*b),
        }
    }
}

/// A value decoded from a call's return data.
#[derive(Debug, Clone)]
pub enum AbiValue {
    Text(String),
    Bool(bool),
    /// A kind of value the registry contract never returns.
    Other,
}

/// The value of a decoded value.
pub enum AbiValueView {
    Text(Seq<char>),
    Bool(bool),
    Other,
}

impl View for AbiValue {
    type V = AbiValueView;

    open spec fn view(&self) -> AbiValueView {
        match self {
            AbiValue::Text(t) => AbiValueView::Text(t@),
            AbiValue::Bool(b) => AbiValueView::Bool(*b),
            AbiValue::Other => AbiValueView::Other,
        }
    }
}

/// Why encoding or decoding failed.
#[derive(Debug, Clone, Copy, PartialEq, Eq, Structural)]
pub enum AbiError {
    /// The arguments do not match the function's inputs.
    InvalidArguments,
    /// The return data could not be decoded by the function's outputs.
    InvalidData,
}

/// A contract function: its name and the types of its inputs and outputs.
#[derive(Debug, Clone)]
pub struct AbiFunction {
    pub name: String,
    pub inputs: Vec<AbiType>,
    pub outputs: Vec<AbiType>,
}

/// The value of a contract function.
pub struct AbiFunctionView {
    pub name: Seq<char>,
    pub inputs: Seq<AbiType>,
    pub outputs: Seq<AbiType>,
}

impl View for AbiFunction {
    type V = AbiFunctionView;

    open spec fn view(&self) -> AbiFunctionView {
        AbiFunctionView { name: self.name@, inputs: self.inputs@, outputs: self.outputs@ }
    }
}

/// The four-byte selector of a function: the start of the Keccak-256 hash
/// of its signature `name(type,...)`, as `ethabi::short_signature` computes it.
pub uninterp spec fn abi_selector(name: Seq<char>, inputs: Seq<AbiType>) -> Seq<u8>;

/// The ABI encoding of a list of arguments, as `ethabi::encode` computes it.
pub uninterp spec fn abi_encoded(args: Seq<AbiArgView>) -> Seq<u8>;

/// The values that `ethabi::decode` reads from `data` by the given types,
/// or `None` where it fails.
pub uninterp spec fn abi_decoded(types: Seq<AbiType>, data: Seq<u8>) -> Option<Seq<AbiValueView>>;

/// The views of a list of arguments.
pub open spec fn args_view(args: Seq<AbiArg>) -> Seq<AbiArgView> {
    args.map_values(|a: AbiArg| a@)
}

/// Whether an argument is of the given type; a `bytesN` argument may be shorter than N.
pub open spec fn arg_fits(a: AbiArgView, t: AbiType) -> bool {
    match (a, t) {
        (AbiArgView::Address(_), AbiType::Address) => true,
        (AbiArgView::FixedBytes(b), AbiType::FixedBytes(n)) => b.len() <= n,
        (AbiArgView::Text(_), AbiType::String) => true,
        (AbiArgView::Bool(_), AbiType::Bool) => true,
        _ => false,
    }
}

/// Whether an argument's encoding is one 32-byte word: an address, a
/// boolean, or between one and 32 fixed bytes.
pub open spec fn word_sized(a: AbiArgView) -> bool {
    match a {
        AbiArgView::Address(_) => true,
        AbiArgView::Bool(_) => true,
        AbiArgView::FixedBytes(b) => 1 <= b.len() <= 32,
        AbiArgView::Text(_) => false,
    }
}

/// Whether every argument's encoding is one word.
pub open spec fn all_word_sized(args: Seq<AbiArgView>) -> bool {
    forall|i: int| 0 <= i < args.len() ==> #[trigger] word_sized(args[i])
}

/// `n` zero bytes.
pub open spec fn zeros(n: nat) -> Seq<u8> {
    Seq::new(n, |i: int| 0u8)
}

/// The word of an argument that takes one word: an address after 12 zero
/// bytes, a boolean as 0 or 1 after 31 zero bytes, fixed bytes followed by
/// zeros up to 32.
pub open spec fn word_of(a: AbiArgView) -> Seq<u8> {
    match a {
        AbiArgView::Address(x) => zeros(12) + x,
        AbiArgView::Bool(b) => zeros(31) + seq![if b { 1u8 } else { 0u8 }],
        AbiArgView::FixedBytes(x) => x + zeros((32 - x.len()) as nat),
        AbiArgView::Text(_) => Seq::empty(),
    }
}

/// The words of the arguments, one after the other.
pub open spec fn words_of(args: Seq<AbiArgView>) -> Seq<u8>
    decreases args.len(),
{
    if args.len() == 0 {
        Seq::empty()
    } else {
        word_of(args[0]) + words_of(args.drop_first())
    }
}

/// How many 32-byte words the encoding of an argument takes: one for an
/// address or a boolean, as many as fixed bytes fill, and for a text its
/// offset word, its length word and the words its UTF-8 bytes fill.
pub open spec fn arg_words(a: AbiArgView) -> nat {
    match a {
        AbiArgView::Address(_) => 1,
        AbiArgView::Bool(_) => 1,
        AbiArgView::FixedBytes(x) => ((x.len() + 31) / 32) as nat,
        AbiArgView::Text(t) => (2 + (encode_utf8(t).len() + 31) / 32) as nat,
    }
}

/// How many 32-byte words the encoding of the arguments takes.
pub open spec fn args_words(args: Seq<AbiArgView>) -> nat
    decreases args.len(),
{
    if args.len() == 0 {
        0
    } else {
        arg_words(args[0]) + args_words(args.drop_first())
    }
}

/// Whether the encoding's size in bytes fits the 32 bits in which the
/// encoder counts it.
pub open spec fn encodable(args: Seq<AbiArgView>) -> bool {
    32 * args_words(args) <= u32::MAX
}

/// Whether the machine's address range holds the positions the decoder
/// computes for a string: an offset and a length of up to 2^32 each, read
/// from the data, past a 32-byte length word.
pub open spec fn string_offsets_in_range() -> bool {
    2 * 0xffff_ffffnat + 32 <= usize::MAX
}

/// Whether the positions the decoder computes for the outputs stay within
/// the machine's address range: the end of each `bytesN` output at its
/// place, and the offsets of strings.
pub open spec fn fixed_outputs_in_range(types: Seq<AbiType>) -> bool {
    &&& forall|i: int|
        0 <= i < types.len() ==> (#[trigger] types[i] matches AbiType::FixedBytes(n) ==> 32 * i + n
            <= usize::MAX)
    &&& forall|i: int|
        0 <= i < types.len() && #[trigger] types[i] == AbiType::String ==> string_offsets_in_range()
}

/// Whether the arguments match the types one for one.
pub open spec fn args_fit(args: Seq<AbiArgView>, types: Seq<AbiType>) -> bool {
    &&& args.len() == types.len()
    &&& forall|i: int| 0 <= i < args.len() ==> #[trigger] arg_fits(args[i], types[i])
}

/// The bytes of a call of `f` with `args`: the selector, then the arguments.
pub open spec fn call_bytes(f: AbiFunctionView, args: Seq<AbiArgView>) -> Seq<u8> {
    abi_selector(f.name, f.inputs) + abi_encoded(args)
}

/// Whether a decoded value is of the given type.
pub open spec fn value_fits(v: AbiValueView, t: AbiType) -> bool {
    match t {
        AbiType::String => v is Text,
        AbiType::Bool => v is Bool,
        _ => true,
    }
}

/// The words of at most two arguments are theirs added up.
pub proof fn lemma_args_words_short(args: Seq<AbiArgView>)
    requires
        args.len() <= 2,
    ensures
        args_words(args) == if args.len() == 0 {
            0
        } else if args.len() == 1 {
            arg_words(args[0])
        } else {
            arg_words(args[0]) + arg_words(args[1])
        },
{
    if args.len() > 0 {
        let rest = args.drop_first();
        assert(args_words(args) == arg_words(args[0]) + args_words(rest));
        if rest.len() > 0 {
            assert(rest.drop_first().len() == 0);
            assert(args_words(rest.drop_first()) == 0);
            assert(args_words(rest) == arg_words(rest[0]) + args_words(rest.drop_first()));
            assert(rest[0] == args[1]);
        } else {
            assert(args_words(rest) == 0);
        }
    }
}

/// `ethabi::short_signature`: the selector of `name` with inputs `inputs`.
#[verifier::external_body]
fn short_signature(name: &str, inputs: &Vec<AbiType>) -> (r: [u8; 4])
    ensures
        r@ == abi_selector(name@, inputs@),
{
    let kinds: Vec<ethabi::ParamType> = inputs.iter().map(|t| match *t {
        AbiType::Address => ethabi::ParamType::Address,
        AbiType::FixedBytes(n) => ethabi::ParamType::FixedBytes(n),
        AbiType::String => ethabi::ParamType::String,
        AbiType::Bool => ethabi::ParamType::Bool,
    }).collect();
    ethabi::short_signature(name, &kinds)
}

/// `ethabi::encode`: the ABI encoding of `args`. Arguments that each take
/// one word (addresses, booleans, one to 32 fixed bytes) encode to their
/// words one after the other, 32 bytes apiece. The encoder counts sizes in
/// 32 bits and overflows on larger encodings, which are left out.
#[verifier::external_body]
fn encode_args(args: &Vec<AbiArg>) -> (r: Vec<u8>)
    requires
        encodable(args_view(args@)),
    ensures
        r@ == abi_encoded(args_view(args@)),
        all_word_sized(args_view(args@)) ==> r@.len() == 32 * args@.len(),
        all_word_sized(args_view(args@)) ==> r@ == words_of(args_view(args@)),
{
    let tokens: Vec<ethabi::Token> = args.iter().map(|a| match a {
        AbiArg::Address(x) => ethabi::Token::Address((*x).into()),
        AbiArg::FixedBytes(b) => ethabi::Token::FixedBytes(b.clone()),
        AbiArg::Text(t) => ethabi::Token::String(t.clone()),
        AbiArg::Bool(b) => ethabi::Token::Bool(*b),
    }).collect();
    ethabi::encode(&tokens)
}

/// `ethabi::decode`: the values of `data` read by `types`. On success there
/// is one value per type, a string for `string` and a boolean for `bool`.
/// Reading the encoding of one string (of fewer than 2^32 bytes, the most
/// its length word holds) by `string` gives the string back, and reading
/// the encoding of one boolean by `bool` gives the boolean back.
/// A `bytesN` output whose end lies past the machine's address range makes
/// the decoder's position arithmetic overflow; such types are left out.
#[verifier::external_body]
fn decode_values(types: &Vec<AbiType>, data: &[u8]) -> (r: Result<Vec<AbiValue>, ethabi::Error>)
    requires
        fixed_outputs_in_range(types@),
    ensures
        r is Ok <==> abi_decoded(types@, data@) is Some,
        r matches Ok(vals) ==> vals@.map_values(|v: AbiValue| v@) == abi_decoded(
            types@,
            data@,
        ).unwrap(),
        r matches Ok(vals) ==> vals@.len() == types@.len() && forall|i: int|
            0 <= i < vals@.len() ==> #[trigger] value_fits(vals@[i]@, types@[i]),
        r is Ok || forall|t: Seq<char>|
            !(types@ == seq![AbiType::String] && encode_utf8(t).len() <= u32::MAX && data@
                == #[trigger] abi_encoded(seq![AbiArgView::Text(t)])),
        r matches Ok(vals) ==> forall|t: Seq<char>|
            types@ == seq![AbiType::String] && encode_utf8(t).len() <= u32::MAX && data@
                == #[trigger] abi_encoded(seq![AbiArgView::Text(t)]) ==> vals@.len() == 1
                && vals@[0]@ == AbiValueView::Text(t),
        r is Ok || forall|b: bool|
            !(types@ == seq![AbiType::Bool] && data@ == #[trigger] abi_encoded(
                seq![AbiArgView::Bool(b)],
            )),
        r matches Ok(vals) ==> forall|b: bool|
            types@ == seq![AbiType::Bool] && data@ == #[trigger] abi_encoded(
                seq![AbiArgView::Bool(b)],
            ) ==> vals@.len() == 1 && vals@[0]@ == AbiValueView::Bool(b),
{
    let kinds: Vec<ethabi::ParamType> = types.iter().map(|t| match *t {
        AbiType::Address => ethabi::ParamType::Address,
        AbiType::FixedBytes(n) => ethabi::ParamType::FixedBytes(n),
        AbiType::String => ethabi::ParamType::String,
        AbiType::Bool => ethabi::ParamType::Bool,
    }).collect();
    ethabi::decode(&kinds, data).map(|ts| ts.into_iter().map(|t| match t {
        ethabi::Token::String(s) => AbiValue::Text(s),
        ethabi::Token::Bool(b) => AbiValue::Bool(b),
        _ => AbiValue::Other,
    }).collect())
}

/// Whether one argument is of the given type.
fn check_arg(a: &AbiArg, t: AbiType) -> (r: bool)
    ensures
        r == arg_fits(a@, t),
{
    match (a, t) {
        (AbiArg::Address(_), AbiType::Address) => true,
        (AbiArg::FixedBytes(b), AbiType::FixedBytes(n)) => b.len() <= n,
        (AbiArg::Text(_), AbiType::String) => true,
        (AbiArg::Bool(_), AbiType::Bool) => true,
        _ => false,
    }
}

/// Whether the arguments match the types one for one.
pub fn check_args(args: &Vec<AbiArg>, types: &Vec<AbiType>) -> (r: bool)
    ensures
        r == args_fit(args_view(args@), types@),
{
    if args.len() != types.len() {
        return false;
    }
    let mut i: usize = 0;
    while i < args.len()
        invariant
            args@.len() == types@.len(),
            i <= args@.len(),
            forall|j: int| 0 <= j < i ==> #[trigger] arg_fits(args_view(args@)[j], types@[j]),
        decreases args@.len() - i,
    {
        if !check_arg(&args[i], types[i]) {
            assert(!arg_fits(args_view(args@)[i as int], types@[i as int]));
            return false;
        }
        i = i + 1;
    }
    true
}

/// The call bytes of `f` with `args`; fails when the arguments do not
/// match the function's inputs.
pub fn encode_input(f: &AbiFunction, args: &Vec<AbiArg>) -> (r: Result<Vec<u8>, AbiError>)
    requires
        encodable(args_view(args@)),
    ensures
        r is Ok <==> args_fit(args_view(args@), f.inputs@),
        r matches Ok(b) ==> b@ == call_bytes(f@, args_view(args@)),
        r matches Ok(_) ==> abi_selector(f@.name, f@.inputs).len() == 4,
        r matches Ok(_) && all_word_sized(args_view(args@)) ==> abi_encoded(args_view(args@)).len()
            == 32 * args@.len(),
        r matches Ok(_) && all_word_sized(args_view(args@)) ==> abi_encoded(args_view(args@))
            == words_of(args_view(args@)),
        r matches Err(e) ==> e == AbiError::InvalidArguments,
{
    if !check_args(args, &f.inputs) {
        return Err(AbiError::InvalidArguments);
    }
    let sel = short_signature(f.name.as_str(), &f.inputs);
    let body = encode_args(args);
    let mut out: Vec<u8> = Vec::new();
    let mut i: usize = 0;
    while i < 4
        invariant
            i <= 4,
            sel@.len() == 4,
            out@ == sel@.subrange(0, i as int),
        decreases 4 - i,
    {
        out.push(sel[i]);
        i = i + 1;
        assert(out@ =~= sel@.subrange(0, i as int));
    }
    let mut j: usize = 0;
    while j < body.len()
        invariant
            j <= body@.len(),
            sel@.len() == 4,
            out@ == sel@ + body@.subrange(0, j as int),
        decreases body@.len() - j,
    {
        out.push(body[j]);
        j = j + 1;
        assert(out@ =~= sel@ + body@.subrange(0, j as int));
    }
    assert(out@ =~= sel@ + body@);
    Ok(out)
}

/// The values of a call's return data, read by the function's outputs.
pub fn decode_output(f: &AbiFunction, data: &[u8]) -> (r: Result<Vec<AbiValue>, AbiError>)
    requires
        fixed_outputs_in_range(f.outputs@),
    ensures
        r is Ok <==> abi_decoded(f.outputs@, data@) is Some,
        r matches Ok(vals) ==> vals@.map_values(|v: AbiValue| v@) == abi_decoded(
            f.outputs@,
            data@,
        ).unwrap(),
        r matches Ok(vals) ==> vals@.len() == f.outputs@.len() && forall|i: int|
            0 <= i < vals@.len() ==> #[trigger] value_fits(vals@[i]@, f.outputs@[i]),
        r matches Err(e) ==> e == AbiError::InvalidData,
        f.outputs@ == seq![AbiType::String] ==> forall|t: Seq<char>|
            encode_utf8(t).len() <= u32::MAX && data@ == #[trigger] abi_encoded(
                seq![AbiArgView::Text(t)],
            ) ==> (r matches Ok(vals) && vals@.len() == 1 && vals@[0]@ == AbiValueView::Text(t)),
        f.outputs@ == seq![AbiType::Bool] ==> forall|b: bool|
            data@ == #[trigger] abi_encoded(seq![AbiArgView::Bool(b)]) ==> (r matches Ok(vals)
                && vals@.len() == 1 && vals@[0]@ == AbiValueView::Bool(b)),
{
    match decode_values(&f.outputs, data) {
        Ok(vals) => Ok(vals),
        Err(_) => Err(AbiError::InvalidData),
    }
}

} // verus!
