use dns_resolver::abi::{check_args, decode_output, encode_input, AbiArg, AbiError, AbiFunction, AbiType, AbiValue};
use dns_resolver::dns_contract::{ContractError, DnsContract, BLOCK_LIMIT_WINDOW};
use ethabi::Token;

const REGISTRY_ABI: &str = r#"[{"constant":true,"inputs":[],"name":"name","outputs":[{"name":"","type":"string"}],"payable":false,"stateMutability":"view","type":"function"},{"constant":false,"inputs":[{"name":"_managerAddr","type":"address"}],"name":"addManager","outputs":[],"payable":false,"stateMutability":"nonpayable","type":"function"},{"constant":true,"inputs":[{"name":"_domain","type":"bytes32"}],"name":"getIp","outputs":[{"name":"","type":"string"}],"payable":false,"stateMutability":"view","type":"function"},{"constant":false,"inputs":[{"name":"_domain","type":"bytes32"},{"name":"_label","type":"bytes32"}],"name":"registerSubDomain","outputs":[],"payable":false,"stateMutability":"nonpayable","type":"function"},{"constant":false,"inputs":[{"name":"_domain","type":"bytes32"},{"name":"_ownerAddr","type":"address"}],"name":"registerDomain","outputs":[],"payable":false,"stateMutability":"nonpayable","type":"function"},{"constant":false,"inputs":[{"name":"_managerAddr","type":"address"}],"name":"removeManager","outputs":[],"payable":false,"stateMutability":"nonpayable","type":"function"},{"constant":false,"inputs":[{"name":"_domain","type":"bytes32"},{"name":"_ip","type":"string"}],"name":"updateIp","outputs":[],"payable":false,"stateMutability":"nonpayable","type":"function"},{"constant":true,"inputs":[{"name":"_managerAddr","type":"address"}],"name":"isManager","outputs":[{"name":"","type":"bool"}],"payable":false,"stateMutability":"view","type":"function"},{"inputs":[],"payable":false,"stateMutability":"nonpayable","type":"constructor"},{"anonymous":false,"inputs":[{"indexed":false,"name":"_domain","type":"bytes32"},{"indexed":false,"name":"ip","type":"string"}],"name":"UpdateIp","type":"event"}]"#;

fn registry() -> ethabi::Contract {
    ethabi::Contract::load(REGISTRY_ABI.as_bytes()).unwrap()
}

fn expected_call(name: &str, tokens: &[Token]) -> Vec<u8> {
    registry().function(name).unwrap().encode_input(tokens).unwrap()
}

fn contract_at(addr: &str) -> DnsContract {
    let mut c = DnsContract::new();
    c.set_address(addr.to_string());
    c
}

fn hex_result(tokens: &[Token]) -> String {
    format!("0x{}", hex::encode(ethabi::encode(tokens)))
}

const MANAGER: [u8; 20] = [0x11; 20];
const DOMAIN: [u8; 32] = [0xab; 32];

#[test]
fn new_contract_has_no_address() {
    let c = DnsContract::new();
    assert_eq!(c.contract_addr, "");
    let (addr, _) = c.name_encode().unwrap();
    assert_eq!(addr, "");
}

#[test]
fn set_address_is_used_by_calls() {
    let c = contract_at("0xfeed");
    let (addr, _) = c.get_ip_encode(DOMAIN.to_vec()).unwrap();
    assert_eq!(addr, "0xfeed");
    let tx = c.update_ip(1, DOMAIN.to_vec(), "1.1.1.1".to_string()).unwrap();
    assert_eq!(tx.to, "0xfeed");
}

#[test]
fn name_call_is_its_selector() {
    let c = contract_at("0x01");
    let (_, data) = c.name_encode().unwrap();
    assert_eq!(data, "06fdde03");
    assert_eq!(data, hex::encode(expected_call("name", &[])));
}

#[test]
fn get_ip_call_matches_abi() {
    let c = contract_at("0x01");
    let (addr, data) = c.get_ip_encode(DOMAIN.to_vec()).unwrap();
    assert_eq!(addr, "0x01");
    assert_eq!(data, hex::encode(expected_call("getIp", &[Token::FixedBytes(DOMAIN.to_vec())])));
    assert_eq!(data.len(), 2 * (4 + 32));
}

#[test]
fn is_manager_call_matches_abi() {
    let c = contract_at("0x01");
    let (_, data) = c.is_manager_encode(MANAGER).unwrap();
    let expected = expected_call("isManager", &[Token::Address(ethabi::Address::from(MANAGER))]);
    assert_eq!(data, hex::encode(expected));
}

#[test]
fn transactions_match_abi_and_block_window() {
    let c = contract_at("0xc0ffee");
    let block = 1234;
    let tx = c.add_manager(block, MANAGER).unwrap();
    assert_eq!(tx.to, "0xc0ffee");
    assert_eq!(tx.block_limit, block + 500);
    assert_eq!(BLOCK_LIMIT_WINDOW, 500);
    assert_eq!(
        tx.data.unwrap(),
        expected_call("addManager", &[Token::Address(ethabi::Address::from(MANAGER))])
    );

    let tx = c.remove_manager(block, MANAGER).unwrap();
    assert_eq!(
        tx.data.unwrap(),
        expected_call("removeManager", &[Token::Address(ethabi::Address::from(MANAGER))])
    );

    let label = [0x07u8; 32];
    let tx = c.register_sub_domain(block, DOMAIN.to_vec(), label.to_vec()).unwrap();
    assert_eq!(tx.block_limit, 1734);
    assert_eq!(
        tx.data.unwrap(),
        expected_call(
            "registerSubDomain",
            &[Token::FixedBytes(DOMAIN.to_vec()), Token::FixedBytes(label.to_vec())]
        )
    );

    let tx = c.register_domain(block, DOMAIN.to_vec(), MANAGER).unwrap();
    assert_eq!(
        tx.data.unwrap(),
        expected_call(
            "registerDomain",
            &[Token::FixedBytes(DOMAIN.to_vec()), Token::Address(ethabi::Address::from(MANAGER))]
        )
    );

    let tx = c.update_ip(-7, DOMAIN.to_vec(), "192.168.0.9".to_string()).unwrap();
    assert_eq!(tx.block_limit, 493);
    assert_eq!(
        tx.data.unwrap(),
        expected_call(
            "updateIp",
            &[Token::FixedBytes(DOMAIN.to_vec()), Token::String("192.168.0.9".to_string())]
        )
    );
}

#[test]
fn get_ip_result_is_decoded() {
    let c = contract_at("0x01");
    let result = hex_result(&[Token::String("10.0.0.8".to_string())]);
    assert_eq!(c.get_ip_decode(result), Ok("10.0.0.8".to_string()));
}

#[test]
fn name_result_is_decoded() {
    let c = contract_at("0x01");
    let result = hex_result(&[Token::String("registry".to_string())]);
    assert_eq!(c.name_decode(result), Ok("registry".to_string()));
}

#[test]
fn is_manager_result_is_decoded() {
    let c = contract_at("0x01");
    assert_eq!(c.is_manager_decode(hex_result(&[Token::Bool(true)])), Ok(true));
    assert_eq!(c.is_manager_decode(hex_result(&[Token::Bool(false)])), Ok(false));
}

#[test]
fn upper_case_hex_result_is_accepted() {
    let c = contract_at("0x01");
    let result = hex_result(&[Token::String("h".to_string())]).to_uppercase();
    assert_eq!(c.get_ip_decode(result), Ok("h".to_string()));
}

#[test]
fn results_that_are_not_hex_are_refused() {
    let c = contract_at("0x01");
    assert_eq!(c.get_ip_decode("0xzz".to_string()), Err(ContractError::InvalidResult));
    assert_eq!(c.get_ip_decode("0x123".to_string()), Err(ContractError::InvalidResult));
    assert_eq!(c.is_manager_decode("0xg0".to_string()), Err(ContractError::InvalidResult));
}

#[test]
fn results_too_short_for_their_outputs_are_refused() {
    let c = contract_at("0x01");
    assert_eq!(c.get_ip_decode("0x".to_string()), Err(ContractError::InvalidResult));
    assert_eq!(c.name_decode("0x00".to_string()), Err(ContractError::InvalidResult));
    assert_eq!(c.is_manager_decode("0x".to_string()), Err(ContractError::InvalidResult));
}

fn get_ip_function() -> AbiFunction {
    AbiFunction {
        name: "getIp".to_string(),
        inputs: vec![AbiType::FixedBytes(32)],
        outputs: vec![AbiType::String],
    }
}

#[test]
fn encode_input_checks_arguments() {
    let f = get_ip_function();
    assert_eq!(encode_input(&f, &vec![]), Err(AbiError::InvalidArguments));
    assert_eq!(encode_input(&f, &vec![AbiArg::Text("x".to_string())]), Err(AbiError::InvalidArguments));
    assert_eq!(encode_input(&f, &vec![AbiArg::FixedBytes(vec![0; 33])]), Err(AbiError::InvalidArguments));
    assert!(!check_args(&vec![AbiArg::Address(MANAGER)], &vec![AbiType::FixedBytes(32)]));
    assert!(check_args(&vec![AbiArg::FixedBytes(vec![1, 2])], &vec![AbiType::FixedBytes(32)]));
    let ok = encode_input(&f, &vec![AbiArg::FixedBytes(DOMAIN.to_vec())]).unwrap();
    assert_eq!(ok, expected_call("getIp", &[Token::FixedBytes(DOMAIN.to_vec())]));
}

#[test]
fn decode_output_reads_values() {
    let f = get_ip_function();
    let data = ethabi::encode(&[Token::String("abc".to_string())]);
    match decode_output(&f, &data).unwrap().as_slice() {
        [AbiValue::Text(t)] => assert_eq!(t, "abc"),
        other => panic!("unexpected {:?}", other),
    }
    assert_eq!(decode_output(&f, &[1, 2, 3]).unwrap_err(), AbiError::InvalidData);
}

#[test]
fn add_and_remove_manager_differ_only_in_selector() {
    let c = contract_at("0xc0ffee");
    let add = c.add_manager(77, MANAGER).unwrap();
    let remove = c.remove_manager(77, MANAGER).unwrap();
    assert_eq!(add.to, remove.to);
    assert_eq!(add.block_limit, remove.block_limit);
    let (a, r) = (add.data.unwrap(), remove.data.unwrap());
    assert_eq!(a.len(), 36);
    assert_eq!(r.len(), 36);
    assert_eq!(a[4..], r[4..]);
    assert_ne!(a[..4], r[..4]);
}

#[test]
fn is_manager_call_carries_add_manager_argument() {
    let c = contract_at("0xc0ffee");
    let (addr, h) = c.is_manager_encode(MANAGER).unwrap();
    assert_eq!(addr, "0xc0ffee");
    assert_eq!(h.len(), 72);
    assert!(h.chars().all(|ch| ch.is_ascii_digit() || ('a'..='f').contains(&ch)));
    let add = c.add_manager(1, MANAGER).unwrap();
    assert_eq!(h[8..], hex::encode(&add.data.unwrap()[4..]));
}

#[test]
fn string_results_read_back_after_any_prefix() {
    let c = contract_at("0x01");
    for s in ["", "registry", "10.0.0.1", "名字"] {
        let body = hex::encode(ethabi::encode(&[Token::String(s.to_string())]));
        assert_eq!(c.name_decode(format!("ab{}", body)), Ok(s.to_string()));
        assert_eq!(c.get_ip_decode(format!("0x{}", body)), Ok(s.to_string()));
    }
}

#[test]
fn bool_results_read_back_after_any_prefix() {
    let c = contract_at("0x01");
    for b in [true, false] {
        let body = hex::encode(ethabi::encode(&[Token::Bool(b)]));
        assert_eq!(c.is_manager_decode(format!("zz{}", body)), Ok(b));
    }
}

#[test]
fn bool_arguments_encode_as_ethabi_does() {
    let f = AbiFunction {
        name: "setFlag".to_string(),
        inputs: vec![AbiType::Bool, AbiType::Address],
        outputs: vec![],
    };
    let args = vec![AbiArg::Bool(true), AbiArg::Address(MANAGER)];
    assert!(check_args(&args, &f.inputs));
    let encoded = encode_input(&f, &args).unwrap();
    let tokens = [Token::Bool(true), Token::Address(ethabi::Address::from(MANAGER))];
    let mut expected =
        ethabi::short_signature("setFlag", &[ethabi::ParamType::Bool, ethabi::ParamType::Address]).to_vec();
    expected.extend(ethabi::encode(&tokens));
    assert_eq!(encoded, expected);
    assert_eq!(encoded.len(), 4 + 64);
}

#[test]
fn word_arguments_are_laid_out_in_words() {
    let c = contract_at("0x01");
    let tx = c.add_manager(0, MANAGER).unwrap();
    let data = tx.data.unwrap();
    assert_eq!(data[4..16], [0u8; 12]);
    assert_eq!(data[16..36], MANAGER);
    let short = vec![0xaa, 0xbb];
    let (_, h) = c.get_ip_encode(short.clone()).unwrap();
    let mut word = short.clone();
    word.resize(32, 0);
    assert_eq!(h[8..], hex::encode(&word));
    let f = AbiFunction { name: "f".to_string(), inputs: vec![AbiType::Bool], outputs: vec![] };
    let encoded = encode_input(&f, &vec![AbiArg::Bool(true)]).unwrap();
    let mut expected = [0u8; 32];
    expected[31] = 1;
    assert_eq!(encoded[4..], expected);
}
