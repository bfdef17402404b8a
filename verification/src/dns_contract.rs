//! The on-chain domain registry contract: building its calls and
//! transactions, and reading its results.

use vstd::prelude::*;
use vstd::utf8::*;
use crate::abi::{
    abi_decoded, abi_encoded, abi_selector, all_word_sized, arg_words, args_fit, args_view,
    call_bytes, decode_output, encodable, encode_input, fixed_outputs_in_range,
    lemma_args_words_short, string_offsets_in_range, word_sized, words_of, zeros, AbiArg, AbiArgView, AbiFunction,
    AbiFunctionView, AbiType, AbiValue, AbiValueView,
};
use crate::hex_codec::{
    hex_bytes, hex_decode, hex_encode, hex_text, is_lower_hex_digit, lemma_hex_roundtrip,
    lemma_hex_text_ascii, lemma_hex_text_concat, lemma_hex_text_lower,
};
use crate::wire::copy_range;

verus! {

/// Why a contract result could not be read.
#[derive(Debug, Clone, Copy, PartialEq, Eq, Structural)]
pub enum ContractError {
    /// The result was not hex text of data the function's outputs decode.
    InvalidResult,
}

/// A transaction to send to the chain: the call data, the contract it goes
/// to and the last block in which it may be included.
#[derive(Debug, Clone)]
pub struct Transaction {
    pub data: Option<Vec<u8>>,
    pub to: String,
    pub block_limit: i64,
}

/// How many blocks after the current one a transaction stays valid.
pub const BLOCK_LIMIT_WINDOW: i64 = 500;

pub open spec fn name_function() -> AbiFunctionView {
    AbiFunctionView { name: "name"@, inputs: seq![], outputs: seq![AbiType::String] }
}

pub open spec fn add_manager_function() -> AbiFunctionView {
    AbiFunctionView { name: "addManager"@, inputs: seq![AbiType::Address], outputs: seq![] }
}

pub open spec fn get_ip_function() -> AbiFunctionView {
    AbiFunctionView {
        name: "getIp"@,
        inputs: seq![AbiType::FixedBytes(32)],
        outputs: seq![AbiType::String],
    }
}

pub open spec fn register_sub_domain_function() -> AbiFunctionView {
    AbiFunctionView {
        name: "registerSubDomain"@,
        inputs: seq![AbiType::FixedBytes(32), AbiType::FixedBytes(32)],
        outputs: seq![],
    }
}

pub open spec fn register_domain_function() -> AbiFunctionView {
    AbiFunctionView {
        name: "registerDomain"@,
        inputs: seq![AbiType::FixedBytes(32), AbiType::Address],
        outputs: seq![],
    }
}

pub open spec fn remove_manager_function() -> AbiFunctionView {
    AbiFunctionView { name: "removeManager"@, inputs: seq![AbiType::Address], outputs: seq![] }
}

pub open spec fn update_ip_function() -> AbiFunctionView {
    AbiFunctionView {
        name: "updateIp"@,
        inputs: seq![AbiType::FixedBytes(32), AbiType::String],
        outputs: seq![],
    }
}

pub open spec fn is_manager_function() -> AbiFunctionView {
    AbiFunctionView {
        name: "isManager"@,
        inputs: seq![AbiType::Address],
        outputs: seq![AbiType::Bool],
    }
}

/// The hex text of a call of `f` with `args`.
pub open spec fn call_hex(f: AbiFunctionView, args: Seq<AbiArgView>) -> Seq<char> {
    hex_text(call_bytes(f, args))
}

/// The bytes a result's hex text stands for: a result starts with a
/// two-character prefix (`0x`) that is dropped.
pub open spec fn result_data(result: Seq<char>) -> Option<Seq<u8>> {
    hex_bytes(encode_utf8(result).skip(2))
}

/// The values of a result of `f`, or `None` when it cannot be read.
pub open spec fn result_values(f: AbiFunctionView, result: Seq<char>) -> Option<Seq<AbiValueView>> {
    match result_data(result) {
        Some(data) => abi_decoded(f.outputs, data),
        None => None,
    }
}

/// The text a string-returning function's result holds.
pub open spec fn result_text(f: AbiFunctionView, result: Seq<char>) -> Option<Seq<char>> {
    match result_values(f, result) {
        Some(vals) => match vals[0] {
            AbiValueView::Text(t) => Some(t),
            _ => None,
        },
        None => None,
    }
}

/// The flag a bool-returning function's result holds.
pub open spec fn result_flag(f: AbiFunctionView, result: Seq<char>) -> Option<bool> {
    match result_values(f, result) {
        Some(vals) => match vals[0] {
            AbiValueView::Bool(b) => Some(b),
            _ => None,
        },
        None => None,
    }
}

/// What the layout of a call's bytes rests on: the selector takes four
/// bytes, and where every argument takes one word the arguments take 32
/// bytes each.
pub open spec fn call_layout(f: AbiFunctionView, args: Seq<AbiArgView>) -> bool {
    &&& abi_selector(f.name, f.inputs).len() == 4
    &&& all_word_sized(args) ==> abi_encoded(args).len() == 32 * args.len()
    &&& all_word_sized(args) ==> abi_encoded(args) == words_of(args)
}

/// At most two arguments, each an address, a boolean or at most 32 fixed
/// bytes, have an encoding whose size the encoder can count.
proof fn lemma_small_args_encodable(args: Seq<AbiArgView>)
    requires
        args.len() <= 2,
        forall|i: int|
            0 <= i < args.len() ==> match #[trigger] args[i] {
                AbiArgView::FixedBytes(x) => x.len() <= 32,
                AbiArgView::Text(_) => false,
                _ => true,
            },
    ensures
        encodable(args),
{
    lemma_args_words_short(args);
    assert forall|i: int| 0 <= i < args.len() implies arg_words(#[trigger] args[i]) <= 1 by {
        match args[i] {
            AbiArgView::FixedBytes(x) => {
                assert((x.len() + 31) / 32 <= 1);
            },
            _ => {},
        }
    }
    if args.len() == 2 {
        assert(arg_words(args[0]) <= 1 && arg_words(args[1]) <= 1);
    } else if args.len() == 1 {
        assert(arg_words(args[0]) <= 1);
    }
}

/// Whether `result` is a contract result holding `data`: two prefix
/// characters (`0x`), then the hex text of the data.
pub open spec fn is_result_of(result: Seq<char>, data: Seq<u8>) -> bool {
    &&& result.len() >= 2
    &&& is_ascii_chars(result.take(2))
    &&& result.skip(2) == hex_text(data)
}

/// The UTF-8 encoding of two texts one after the other is their encodings
/// one after the other.
proof fn lemma_encode_utf8_concat(a: Seq<char>, b: Seq<char>)
    ensures
        encode_utf8(a + b) == encode_utf8(a) + encode_utf8(b),
    decreases a.len(),
{
    if a.len() == 0 {
        assert(a + b =~= b);
        assert(encode_utf8(a) =~= Seq::<u8>::empty());
        assert(encode_utf8(a) + encode_utf8(b) =~= encode_utf8(b));
    } else {
        lemma_encode_utf8_concat(a.drop_first(), b);
        assert((a + b).drop_first() =~= a.drop_first() + b);
        assert((a + b)[0] == a[0]);
        assert(encode_utf8(a + b) =~= encode_utf8(a) + encode_utf8(b));
    }
}

/// A result made of a prefix and the hex text of `data` holds `data`.
pub proof fn lemma_result_data(result: Seq<char>, data: Seq<u8>)
    requires
        is_result_of(result, data),
    ensures
        encode_utf8(result).len() >= 2,
        result_data(result) == Some(data),
{
    let p = result.take(2);
    let h = result.skip(2);
    assert(result =~= p + h);
    lemma_encode_utf8_concat(p, h);
    is_ascii_chars_encode_utf8(p);
    assert(encode_utf8(result).skip(2) =~= encode_utf8(h));
    lemma_hex_roundtrip(data);
}

/// Whether `tx` is the transaction calling `f` with `args` on `addr`, valid
/// up to `BLOCK_LIMIT_WINDOW` blocks after `block_number`.
pub open spec fn is_call_transaction(
    tx: Transaction,
    addr: Seq<char>,
    block_number: i64,
    f: AbiFunctionView,
    args: Seq<AbiArgView>,
) -> bool {
    &&& tx.to@ == addr
    &&& tx.block_limit == block_number + BLOCK_LIMIT_WINDOW
    &&& tx.data matches Some(d) && d@ == call_bytes(f, args)
    &&& call_layout(f, args)
}

/// A contract transaction goes to the contract's address, stays valid up
/// to 500 blocks after the given block, and carries the call's bytes: the
/// function's four-byte selector followed by the encoded arguments.
pub proof fn lemma_call_transaction_parts(
    tx: Transaction,
    addr: Seq<char>,
    block_number: i64,
    f: AbiFunctionView,
    args: Seq<AbiArgView>,
)
    requires
        is_call_transaction(tx, addr, block_number, f, args),
    ensures
        tx.to@ == addr,
        tx.block_limit == block_number + 500,
        tx.data matches Some(d) && d@ == abi_selector(f.name, f.inputs) + abi_encoded(args),
        abi_selector(f.name, f.inputs).len() == 4,
{
}

/// The transactions adding and removing the same manager go to the same
/// contract with the same block limit, and their data, 36 bytes each, is
/// the same after the four-byte selector: the manager's address after 12
/// zero bytes.
pub proof fn lemma_remove_manager_mirrors_add_manager(
    add: Transaction,
    remove: Transaction,
    addr: Seq<char>,
    block_number: i64,
    manager: Seq<u8>,
)
    requires
        is_call_transaction(
            add,
            addr,
            block_number,
            add_manager_function(),
            seq![AbiArgView::Address(manager)],
        ),
        is_call_transaction(
            remove,
            addr,
            block_number,
            remove_manager_function(),
            seq![AbiArgView::Address(manager)],
        ),
    ensures
        remove.to@ == add.to@,
        remove.block_limit == add.block_limit,
        add.data.unwrap()@.len() == 36,
        remove.data.unwrap()@.len() == 36,
        remove.data.unwrap()@.skip(4) == add.data.unwrap()@.skip(4),
        add.data.unwrap()@.skip(4) == zeros(12) + manager,
{
    let args = seq![AbiArgView::Address(manager)];
    assert(word_sized(args[0]));
    assert(all_word_sized(args));
    assert(words_of(args.drop_first()) =~= Seq::<u8>::empty());
    assert(words_of(args) =~= zeros(12) + manager);
    let enc = abi_encoded(args);
    let d1 = add.data.unwrap()@;
    let d2 = remove.data.unwrap()@;
    assert(d1.skip(4) =~= enc);
    assert(d2.skip(4) =~= enc);
}

/// The `isManager` call for a manager is 72 lower-case hex digits, and
/// after its eight-digit selector it is the hex text of the data that the
/// transaction adding that manager carries after its selector, which is
/// the manager's address after 12 zero bytes.
pub proof fn lemma_is_manager_call_matches_add_manager(
    call: Seq<char>,
    add: Transaction,
    addr: Seq<char>,
    block_number: i64,
    manager: Seq<u8>,
)
    requires
        call == call_hex(is_manager_function(), seq![AbiArgView::Address(manager)]),
        call_layout(is_manager_function(), seq![AbiArgView::Address(manager)]),
        is_call_transaction(
            add,
            addr,
            block_number,
            add_manager_function(),
            seq![AbiArgView::Address(manager)],
        ),
    ensures
        call.len() == 72,
        forall|i: int| 0 <= i < call.len() ==> is_lower_hex_digit(#[trigger] call[i]),
        call.skip(8) == hex_text(add.data.unwrap()@.skip(4)),
        call.skip(8) == hex_text(zeros(12) + manager),
{
    let args = seq![AbiArgView::Address(manager)];
    assert(word_sized(args[0]));
    assert(all_word_sized(args));
    assert(words_of(args.drop_first()) =~= Seq::<u8>::empty());
    assert(words_of(args) =~= zeros(12) + manager);
    let f = is_manager_function();
    let sel = abi_selector(f.name, f.inputs);
    let enc = abi_encoded(args);
    lemma_hex_text_concat(sel, enc);
    lemma_hex_text_ascii(sel);
    lemma_hex_text_ascii(enc);
    lemma_hex_text_lower(sel + enc);
    assert(call.skip(8) =~= hex_text(enc));
    assert(add.data.unwrap()@.skip(4) =~= enc);
}

/// The registry contract at an address, with the functions of its ABI.
pub struct DnsContract {
    pub contract_addr: String,
    name_func: AbiFunction,
    add_manager_func: AbiFunction,
    get_ip_func: AbiFunction,
    register_sub_domain_func: AbiFunction,
    register_domain_func: AbiFunction,
    remove_manager_func: AbiFunction,
    update_ip_func: AbiFunction,
    is_manager_func: AbiFunction,
}

fn make_function(name: &str, inputs: Vec<AbiType>, outputs: Vec<AbiType>) -> (f: AbiFunction)
    ensures
        f@ == (AbiFunctionView { name: name@, inputs: inputs@, outputs: outputs@ }),
{
    AbiFunction { name: name.to_owned(), inputs, outputs }
}

impl DnsContract {
    /// The contract's functions are those of its ABI.
    pub closed spec fn wf(&self) -> bool {
        &&& self.name_func@ == name_function()
        &&& self.add_manager_func@ == add_manager_function()
        &&& self.get_ip_func@ == get_ip_function()
        &&& self.register_sub_domain_func@ == register_sub_domain_function()
        &&& self.register_domain_func@ == register_domain_function()
        &&& self.remove_manager_func@ == remove_manager_function()
        &&& self.update_ip_func@ == update_ip_function()
        &&& self.is_manager_func@ == is_manager_function()
    }

    /// The address of the contract.
    pub closed spec fn address(&self) -> Seq<char> {
        self.contract_addr@
    }

    /// The contract with the registry's ABI and no address yet.
    pub fn new() -> (c: Self)
        ensures
            c.wf(),
            c.address() == Seq::<char>::empty(),
    {
        let c = DnsContract {
            contract_addr: String::new(),
            name_func: make_function("name", vec![], vec![AbiType::String]),
            add_manager_func: make_function("addManager", vec![AbiType::Address], vec![]),
            get_ip_func: make_function("getIp", vec![AbiType::FixedBytes(32)], vec![AbiType::String]),
            register_sub_domain_func: make_function(
                "registerSubDomain",
                vec![AbiType::FixedBytes(32), AbiType::FixedBytes(32)],
                vec![],
            ),
            register_domain_func: make_function(
                "registerDomain",
                vec![AbiType::FixedBytes(32), AbiType::Address],
                vec![],
            ),
            remove_manager_func: make_function("removeManager", vec![AbiType::Address], vec![]),
            update_ip_func: make_function(
                "updateIp",
                vec![AbiType::FixedBytes(32), AbiType::String],
                vec![],
            ),
            is_manager_func: make_function("isManager", vec![AbiType::Address], vec![AbiType::Bool]),
        };
        assert(c.name_func@.outputs =~= name_function().outputs);
        assert(c.name_func@.inputs =~= name_function().inputs);
        assert(c.add_manager_func@.inputs =~= add_manager_function().inputs);
        assert(c.add_manager_func@.outputs =~= add_manager_function().outputs);
        assert(c.get_ip_func@.inputs =~= get_ip_function().inputs);
        assert(c.get_ip_func@.outputs =~= get_ip_function().outputs);
        assert(c.register_sub_domain_func@.inputs =~= register_sub_domain_function().inputs);
        assert(c.register_sub_domain_func@.outputs =~= register_sub_domain_function().outputs);
        assert(c.register_domain_func@.inputs =~= register_domain_function().inputs);
        assert(c.register_domain_func@.outputs =~= register_domain_function().outputs);
        assert(c.remove_manager_func@.inputs =~= remove_manager_function().inputs);
        assert(c.remove_manager_func@.outputs =~= remove_manager_function().outputs);
        assert(c.update_ip_func@.inputs =~= update_ip_function().inputs);
        assert(c.update_ip_func@.outputs =~= update_ip_function().outputs);
        assert(c.is_manager_func@.inputs =~= is_manager_function().inputs);
        assert(c.is_manager_func@.outputs =~= is_manager_function().outputs);
        c
    }

    /// Sets the address of the contract.
    pub fn set_address(&mut self, contract_addr: String)
        requires
            old(self).wf(),
        ensures
            final(self).wf(),
            final(self).address() == contract_addr@,
    {
        self.contract_addr = contract_addr;
    }

    /// The address and the hex call text of a call of `f`.
    fn call_text(&self, f: &AbiFunction, args: Vec<AbiArg>) -> (r: (String, String))
        requires
            args_fit(args_view(args@), f.inputs@),
            encodable(args_view(args@)),
        ensures
            r.0@ == self.address(),
            r.1@ == call_hex(f@, args_view(args@)),
            call_layout(f@, args_view(args@)),
    {
        match encode_input(f, &args) {
            Ok(params) => (self.contract_addr.clone(), hex_encode(params.as_slice())),
            Err(_) => {
                assert(false);
                (String::new(), String::new())
            },
        }
    }

    /// The transaction calling `f` on the contract.
    fn call_transaction(&self, f: &AbiFunction, args: Vec<AbiArg>, block_number: i64) -> (tx:
        Transaction)
        requires
            args_fit(args_view(args@), f.inputs@),
            encodable(args_view(args@)),
            block_number <= i64::MAX - BLOCK_LIMIT_WINDOW,
        ensures
            is_call_transaction(tx, self.address(), block_number, f@, args_view(args@)),
            tx.block_limit == block_number + 500,
            tx.to@ == self.address(),
    {
        match encode_input(f, &args) {
            Ok(params) => Transaction {
                data: Some(params),
                to: self.contract_addr.clone(),
                block_limit: block_number + BLOCK_LIMIT_WINDOW,
            },
            Err(_) => {
                assert(false);
                Transaction { data: None, to: String::new(), block_limit: 0 }
            },
        }
    }

    /// The values of a result of `f`.
    fn result_values(f: &AbiFunction, result: &String) -> (r: Result<Vec<AbiValue>, ContractError>)
        requires
            encode_utf8(result@).len() >= 2,
            fixed_outputs_in_range(f@.outputs),
        ensures
            match result_values(f@, result@) {
                Some(vals) => r matches Ok(v) && v@.map_values(|x: AbiValue| x@) == vals
                    && v@.len() == f@.outputs.len()
                    && forall|i: int| 0 <= i < v@.len() ==> #[trigger] crate::abi::value_fits(v@[i]@, f@.outputs[i]),
                None => r == Err::<Vec<AbiValue>, ContractError>(ContractError::InvalidResult),
            },
            forall|t: Seq<char>|
                f@.outputs == seq![AbiType::String] && encode_utf8(t).len() <= u32::MAX
                    && is_result_of(result@, #[trigger] abi_encoded(seq![AbiArgView::Text(t)]))
                    ==> result_values(f@, result@) == Some(seq![AbiValueView::Text(t)]),
            forall|b: bool|
                f@.outputs == seq![AbiType::Bool] && is_result_of(
                    result@,
                    #[trigger] abi_encoded(seq![AbiArgView::Bool(b)]),
                ) ==> result_values(f@, result@) == Some(seq![AbiValueView::Bool(b)]),
    {
        let bytes = result.as_str().as_bytes();
        let text = copy_range(bytes, 2, bytes.len());
        assert(text@ =~= encode_utf8(result@).skip(2));
        let r = match hex_decode(text.as_slice()) {
            Ok(data) => match decode_output(f, data.as_slice()) {
                Ok(vals) => Ok(vals),
                Err(_) => Err(ContractError::InvalidResult),
            },
            Err(_) => Err(ContractError::InvalidResult),
        };
        proof {
            assert forall|t: Seq<char>|
                f@.outputs == seq![AbiType::String] && encode_utf8(t).len() <= u32::MAX
                    && is_result_of(
                    result@,
                    #[trigger] abi_encoded(seq![AbiArgView::Text(t)]),
                ) implies result_values(f@, result@) == Some(seq![AbiValueView::Text(t)]) by {
                lemma_result_data(result@, abi_encoded(seq![AbiArgView::Text(t)]));
                let vals = r->Ok_0;
                assert(vals@.map_values(|x: AbiValue| x@) =~= seq![AbiValueView::Text(t)]);
            }
            assert forall|b: bool|
                f@.outputs == seq![AbiType::Bool] && is_result_of(
                    result@,
                    #[trigger] abi_encoded(seq![AbiArgView::Bool(b)]),
                ) implies result_values(f@, result@) == Some(seq![AbiValueView::Bool(b)]) by {
                lemma_result_data(result@, abi_encoded(seq![AbiArgView::Bool(b)]));
                let vals = r->Ok_0;
                assert(vals@.map_values(|x: AbiValue| x@) =~= seq![AbiValueView::Bool(b)]);
            }
        }
        r
    }

    /// The text a string-returning function's result holds.
    fn result_string(f: &AbiFunction, result: &String) -> (r: Result<String, ContractError>)
        requires
            encode_utf8(result@).len() >= 2,
            string_offsets_in_range(),
            f@.outputs == seq![AbiType::String],
        ensures
            match result_text(f@, result@) {
                Some(t) => r matches Ok(s) && s@ == t,
                None => r == Err::<String, ContractError>(ContractError::InvalidResult),
            },
            result_values(f@, result@) is Some ==> result_text(f@, result@) is Some,
            forall|t: Seq<char>|
                encode_utf8(t).len() <= u32::MAX && is_result_of(
                    result@,
                    #[trigger] abi_encoded(seq![AbiArgView::Text(t)]),
                ) ==> (r matches Ok(s) && s@ == t),
    {
        match Self::result_values(f, result) {
            Ok(mut vals) => {
                let ghost views = vals@.map_values(|x: AbiValue| x@);
                assert(crate::abi::value_fits(vals@[0]@, f@.outputs[0]));
                assert(views[0] == vals@[0]@);
                match vals.remove(0) {
                    AbiValue::Text(t) => Ok(t),
                    _ => {
                        assert(false);
                        Err(ContractError::InvalidResult)
                    },
                }
            },
            Err(e) => Err(e),
        }
    }

    /// The call of the contract's `name` function: its address and the hex call text.
    pub fn name_encode(&self) -> (r: Result<(String, String), ContractError>)
        requires
            self.wf(),
        ensures
            r matches Ok((a, h)) && a@ == self.address() && h@ == call_hex(
                name_function(),
                seq![],
            ),
            call_layout(name_function(), seq![]),
    {
        let args: Vec<AbiArg> = vec![];
        assert(args_view(args@) =~= seq![]);
        proof {
            lemma_small_args_encodable(args_view(args@));
        }
        Ok(self.call_text(&self.name_func, args))
    }

    /// The name the contract's `name` function returned, from its hex result.
    pub fn name_decode(&self, result: String) -> (r: Result<String, ContractError>)
        requires
            self.wf(),
            encode_utf8(result@).len() >= 2,
            string_offsets_in_range(),
        ensures
            match result_text(name_function(), result@) {
                Some(t) => r matches Ok(s) && s@ == t,
                None => r == Err::<String, ContractError>(ContractError::InvalidResult),
            },
            forall|t: Seq<char>|
                encode_utf8(t).len() <= u32::MAX && is_result_of(
                    result@,
                    #[trigger] abi_encoded(seq![AbiArgView::Text(t)]),
                ) ==> (r matches Ok(s) && s@ == t),
    {
        Self::result_string(&self.name_func, &result)
    }

    /// The transaction adding a manager.
    pub fn add_manager(&self, block_number: i64, manager_addr: [u8; 20]) -> (r: Result<
        Transaction,
        ContractError,
    >)
        requires
            self.wf(),
            block_number <= i64::MAX - BLOCK_LIMIT_WINDOW,
        ensures
            r matches Ok(tx) && is_call_transaction(
                tx,
                self.address(),
                block_number,
                add_manager_function(),
                seq![AbiArgView::Address(manager_addr@)],
            ),
            r matches Ok(tx) && tx.block_limit == block_number + 500 && tx.to@ == self.address(),
    {
        let args = vec![AbiArg::Address(manager_addr)];
        assert(args_view(args@) =~= seq![AbiArgView::Address(manager_addr@)]);
        proof {
            lemma_small_args_encodable(args_view(args@));
        }
        Ok(self.call_transaction(&self.add_manager_func, args, block_number))
    }

    /// The call of `getIp` for a domain hash (at most 32 bytes).
    pub fn get_ip_encode(&self, domain: Vec<u8>) -> (r: Result<(String, String), ContractError>)
        requires
            self.wf(),
            domain@.len() <= 32,
        ensures
            r matches Ok((a, h)) && a@ == self.address() && h@ == call_hex(
                get_ip_function(),
                seq![AbiArgView::FixedBytes(domain@)],
            ),
            call_layout(get_ip_function(), seq![AbiArgView::FixedBytes(domain@)]),
    {
        let ghost d = domain@;
        let args = vec![AbiArg::FixedBytes(domain)];
        assert(args_view(args@) =~= seq![AbiArgView::FixedBytes(d)]);
        proof {
            lemma_small_args_encodable(args_view(args@));
        }
        Ok(self.call_text(&self.get_ip_func, args))
    }

    /// The address that `getIp` returned, from its hex result.
    pub fn get_ip_decode(&self, result: String) -> (r: Result<String, ContractError>)
        requires
            self.wf(),
            encode_utf8(result@).len() >= 2,
            string_offsets_in_range(),
        ensures
            match result_text(get_ip_function(), result@) {
                Some(t) => r matches Ok(s) && s@ == t,
                None => r == Err::<String, ContractError>(ContractError::InvalidResult),
            },
            forall|t: Seq<char>|
                encode_utf8(t).len() <= u32::MAX && is_result_of(
                    result@,
                    #[trigger] abi_encoded(seq![AbiArgView::Text(t)]),
                ) ==> (r matches Ok(s) && s@ == t),
    {
        Self::result_string(&self.get_ip_func, &result)
    }

    /// The transaction registering a label under a domain.
    pub fn register_sub_domain(&self, block_number: i64, domain: Vec<u8>, label: Vec<u8>) -> (r:
        Result<Transaction, ContractError>)
        requires
            self.wf(),
            block_number <= i64::MAX - BLOCK_LIMIT_WINDOW,
            domain@.len() <= 32,
            label@.len() <= 32,
        ensures
            r matches Ok(tx) && is_call_transaction(
                tx,
                self.address(),
                block_number,
                register_sub_domain_function(),
                seq![AbiArgView::FixedBytes(domain@), AbiArgView::FixedBytes(label@)],
            ),
            r matches Ok(tx) && tx.block_limit == block_number + 500 && tx.to@ == self.address(),
    {
        let ghost d = domain@;
        let ghost l = label@;
        let args = vec![AbiArg::FixedBytes(domain), AbiArg::FixedBytes(label)];
        assert(args_view(args@) =~= seq![AbiArgView::FixedBytes(d), AbiArgView::FixedBytes(l)]);
        proof {
            lemma_small_args_encodable(args_view(args@));
        }
        Ok(self.call_transaction(&self.register_sub_domain_func, args, block_number))
    }

    /// The transaction registering a domain to an owner.
    pub fn register_domain(&self, block_number: i64, domain: Vec<u8>, owner_addr: [u8; 20]) -> (r:
        Result<Transaction, ContractError>)
        requires
            self.wf(),
            block_number <= i64::MAX - BLOCK_LIMIT_WINDOW,
            domain@.len() <= 32,
        ensures
            r matches Ok(tx) && is_call_transaction(
                tx,
                self.address(),
                block_number,
                register_domain_function(),
                seq![AbiArgView::FixedBytes(domain@), AbiArgView::Address(owner_addr@)],
            ),
            r matches Ok(tx) && tx.block_limit == block_number + 500 && tx.to@ == self.address(),
    {
        let ghost d = domain@;
        let args = vec![AbiArg::FixedBytes(domain), AbiArg::Address(owner_addr)];
        assert(args_view(args@) =~= seq![
            AbiArgView::FixedBytes(d),
            AbiArgView::Address(owner_addr@),
        ]);
        proof {
            lemma_small_args_encodable(args_view(args@));
        }
        Ok(self.call_transaction(&self.register_domain_func, args, block_number))
    }

    /// The transaction removing a manager.
    pub fn remove_manager(&self, block_number: i64, manager_addr: [u8; 20]) -> (r: Result<
        Transaction,
        ContractError,
    >)
        requires
            self.wf(),
            block_number <= i64::MAX - BLOCK_LIMIT_WINDOW,
        ensures
            r matches Ok(tx) && is_call_transaction(
                tx,
                self.address(),
                block_number,
                remove_manager_function(),
                seq![AbiArgView::Address(manager_addr@)],
            ),
            r matches Ok(tx) && tx.block_limit == block_number + 500 && tx.to@ == self.address(),
    {
        let args = vec![AbiArg::Address(manager_addr)];
        assert(args_view(args@) =~= seq![AbiArgView::Address(manager_addr@)]);
        proof {
            lemma_small_args_encodable(args_view(args@));
        }
        Ok(self.call_transaction(&self.remove_manager_func, args, block_number))
    }

    /// The transaction setting the address a domain resolves to.
    pub fn update_ip(&self, block_number: i64, domain: Vec<u8>, ip: String) -> (r: Result<
        Transaction,
        ContractError,
    >)
        requires
            self.wf(),
            block_number <= i64::MAX - BLOCK_LIMIT_WINDOW,
            domain@.len() <= 32,
            encode_utf8(ip@).len() <= u32::MAX - 127,
        ensures
            r matches Ok(tx) && is_call_transaction(
                tx,
                self.address(),
                block_number,
                update_ip_function(),
                seq![AbiArgView::FixedBytes(domain@), AbiArgView::Text(ip@)],
            ),
            r matches Ok(tx) && tx.block_limit == block_number + 500 && tx.to@ == self.address(),
    {
        let ghost d = domain@;
        let ghost i = ip@;
        let args = vec![AbiArg::FixedBytes(domain), AbiArg::Text(ip)];
        assert(args_view(args@) =~= seq![AbiArgView::FixedBytes(d), AbiArgView::Text(i)]);
        proof {
            let words = seq![AbiArgView::FixedBytes(d), AbiArgView::Text(i)];
            lemma_args_words_short(words);
            let l = encode_utf8(i).len();
            assert(arg_words(words[0]) <= 1) by {
                assert((d.len() + 31) / 32 <= 1);
            }
            assert(32 * ((l + 31) / 32) <= l + 31) by (nonlinear_arith);
        }
        Ok(self.call_transaction(&self.update_ip_func, args, block_number))
    }

    /// The call of `isManager` for an address.
    pub fn is_manager_encode(&self, manager_addr: [u8; 20]) -> (r: Result<
        (String, String),
        ContractError,
    >)
        requires
            self.wf(),
        ensures
            r matches Ok((a, h)) && a@ == self.address() && h@ == call_hex(
                is_manager_function(),
                seq![AbiArgView::Address(manager_addr@)],
            ),
            call_layout(is_manager_function(), seq![AbiArgView::Address(manager_addr@)]),
    {
        let args = vec![AbiArg::Address(manager_addr)];
        assert(args_view(args@) =~= seq![AbiArgView::Address(manager_addr@)]);
        proof {
            lemma_small_args_encodable(args_view(args@));
        }
        Ok(self.call_text(&self.is_manager_func, args))
    }

    /// Whether the address is a manager, from the hex result of `isManager`.
    pub fn is_manager_decode(&self, result: String) -> (r: Result<bool, ContractError>)
        requires
            self.wf(),
            encode_utf8(result@).len() >= 2,
        ensures
            match result_flag(is_manager_function(), result@) {
                Some(b) => r == Ok::<bool, ContractError>(b),
                None => r == Err::<bool, ContractError>(ContractError::InvalidResult),
            },
            forall|b: bool|
                is_result_of(result@, #[trigger] abi_encoded(seq![AbiArgView::Bool(b)])) ==> r
                    == Ok::<bool, ContractError>(b),
    {
        let f = &self.is_manager_func;
        match Self::result_values(f, &result) {
            Ok(vals) => {
                let ghost views = vals@.map_values(|x: AbiValue| x@);
                assert(crate::abi::value_fits(vals@[0]@, f@.outputs[0]));
                assert(views[0] == vals@[0]@);
                match &vals[0] {
                    AbiValue::Bool(b) => Ok(*b),
                    _ => {
                        assert(false);
                        Err(ContractError::InvalidResult)
                    },
                }
            },
            Err(e) => Err(e),
        }
    }
}

} // verus!
