use zk_whitelist::commands::proofs::{
    address_to_decimal, generate_proof, proof_entry, proofs_document, proofs_output_file,
    strip_hex_prefixes, witness_input, write_proofs, write_witness_input, ProofsSession,
};
use zk_whitelist::utils::command_runner::MockCommandRunner;
use zk_whitelist::utils::filesystem_operations::MockFileSystemOps;

#[test]
fn address_in_decimal() {
    assert_eq!(
        address_to_decimal("0x1234567890abcdef1234567890abcdef12345678"),
        Ok("103929005307927756724354605802047639613112342136".to_string())
    );
    assert_eq!(address_to_decimal("0xff"), Ok("255".to_string()));
    assert_eq!(address_to_decimal("FF"), Ok("255".to_string()));
    assert_eq!(address_to_decimal("0x0x10"), Ok("16".to_string()));
    assert_eq!(address_to_decimal("0x0"), Ok("0".to_string()));
    assert_eq!(address_to_decimal("-1a"), Ok("-26".to_string()));
    assert_eq!(address_to_decimal("1_0"), Ok("16".to_string()));
}

#[test]
fn address_that_is_not_hexadecimal() {
    let err = Err("Failed to parse address to decimal".to_string());
    assert_eq!(address_to_decimal("0x"), err);
    assert_eq!(address_to_decimal(""), err);
    assert_eq!(address_to_decimal("0xg1"), err);
    assert_eq!(address_to_decimal("0x_1"), err);
    assert_eq!(address_to_decimal("++1"), err);
    assert_eq!(address_to_decimal("0x12 "), err);
}

#[test]
fn hex_prefixes_are_stripped() {
    assert_eq!(strip_hex_prefixes("0x0xab"), "ab");
    assert_eq!(strip_hex_prefixes("0X12"), "0X12");
    assert_eq!(strip_hex_prefixes("0x"), "");
    assert_eq!(strip_hex_prefixes("00x1"), "00x1");
}

#[test]
fn witness_input_names_the_address_twice() {
    assert_eq!(
        witness_input(&"255".to_string()),
        "{\"addressInDecimal\":\"255\",\"sameAddressButPublic\":\"255\"}"
    );
}

fn members(pairs: &[(&str, &str)]) -> Vec<(String, String)> {
    pairs.iter().map(|(n, t)| (n.to_string(), t.to_string())).collect()
}

#[test]
fn proof_entry_from_calldata() {
    let entry = proof_entry("[\"0x1\", \"0x2\"],[[\"0x3\"]],[\"0x4\"],[\"0x5\"]").unwrap();
    assert_eq!(
        entry,
        members(&[
            ("pA", "[\"0x1\",\"0x2\"]"),
            ("pB", "[[\"0x3\"]]"),
            ("pC", "[\"0x4\"]"),
            ("input", "[\"0x5\"]"),
        ])
    );
}

#[test]
fn proof_entry_with_missing_parts() {
    let entry = proof_entry("1, 2").unwrap();
    assert_eq!(
        entry,
        members(&[("pA", "1"), ("pB", "2"), ("pC", "null"), ("input", "null")])
    );
    let entry = proof_entry("").unwrap();
    assert_eq!(
        entry,
        members(&[("pA", "null"), ("pB", "null"), ("pC", "null"), ("input", "null")])
    );
}

#[test]
fn proof_entry_keeps_first_four_items() {
    let entry = proof_entry("1, {\"a\": true}, \"x\", 4, 5").unwrap();
    assert_eq!(
        entry,
        members(&[("pA", "1"), ("pB", "{\"a\":true}"), ("pC", "\"x\""), ("input", "4")])
    );
}

#[test]
fn proof_entry_from_bad_calldata() {
    assert!(proof_entry("[1, 2").is_err());
    assert!(proof_entry("1] [2").is_err());
}

#[test]
fn output_file_name() {
    assert_eq!(proofs_output_file("addresses.txt"), "addresses.txt.proofs.json");
}

#[test]
fn document_keeps_latest_entry_per_address() {
    let a = proof_entry("1").unwrap();
    let b = proof_entry("2").unwrap();
    let c = proof_entry("3").unwrap();
    let text = proofs_document(&vec![
        ("0xb".to_string(), a),
        ("0xa".to_string(), b),
        ("0xb".to_string(), c),
    ]);
    assert_eq!(
        text,
        Ok("{\"0xa\":{\"input\":null,\"pA\":2,\"pB\":null,\"pC\":null},\"0xb\":{\"input\":null,\"pA\":3,\"pB\":null,\"pC\":null}}".to_string())
    );
}

#[test]
fn empty_document() {
    assert_eq!(proofs_document(&Vec::new()), Ok("{}".to_string()));
}

#[test]
fn document_refuses_member_that_is_not_json() {
    let entries = vec![("0x1".to_string(), members(&[("pA", "not json")]))];
    assert!(proofs_document(&entries).is_err());
    let mut files = MockFileSystemOps::new();
    assert!(write_proofs(&mut files, "list.txt", &entries).is_err());
    assert_eq!(files.get_written_content("list.txt.proofs.json"), None);
}

#[test]
fn proof_steps_are_run_in_order() {
    let mut runner = MockCommandRunner::new();
    assert!(generate_proof(&mut runner).is_ok());
    let calls = runner.calls();
    assert_eq!(calls.len(), 3);
    assert_eq!(calls[0].0, "node");
    assert_eq!(
        calls[0].1,
        vec!["generate_witness.js", "circuit.wasm", "input.json", "witness.wtns"]
    );
    assert_eq!(calls[1].0, "snarkjs");
    assert_eq!(calls[1].1, vec!["wtns", "export", "json", "witness.wtns"]);
    assert_eq!(calls[2].0, "snarkjs");
    assert_eq!(
        calls[2].1,
        vec!["groth16", "prove", "circuit_0001.zkey", "witness.wtns", "proof.json", "public.json"]
    );
}

#[test]
fn witness_input_is_written() {
    let mut files = MockFileSystemOps::new();
    let expected = "{\"addressInDecimal\":\"16\",\"sameAddressButPublic\":\"16\"}";
    assert_eq!(write_witness_input(&mut files, "0x10"), Ok(expected.to_string()));
    assert_eq!(files.get_written_content("input.json"), Some(expected.to_string()));
}

#[test]
fn bad_address_writes_nothing() {
    let mut files = MockFileSystemOps::new();
    assert_eq!(
        write_witness_input(&mut files, "0xzz"),
        Err("Failed to parse address to decimal".to_string())
    );
    assert_eq!(files.get_written_content("input.json"), None);
}

#[test]
fn no_addresses_write_an_empty_object() {
    let mut files = MockFileSystemOps::new();
    assert!(write_proofs(&mut files, "empty.txt", &Vec::new()).is_ok());
    assert_eq!(
        files.get_written_content("empty.txt.proofs.json"),
        Some("{}".to_string())
    );
}

#[test]
fn proofs_are_written_next_to_the_input() {
    let mut files = MockFileSystemOps::new();
    let entry = proof_entry("1, 2, 3, 4").unwrap();
    assert!(write_proofs(&mut files, "list.txt", &vec![("0x1".to_string(), entry)]).is_ok());
    assert_eq!(
        files.get_written_content("list.txt.proofs.json"),
        Some("{\"0x1\":{\"input\":4,\"pA\":1,\"pB\":2,\"pC\":3}}".to_string())
    );
}

#[test]
fn session_proves_each_address_then_writes_the_file() {
    let mut runner = MockCommandRunner::new();
    let mut files = MockFileSystemOps::new();
    let addresses = vec!["0x10".to_string(), "0x1".to_string(), "0x10".to_string()];
    let mut session = ProofsSession::new("list.txt", addresses);
    let mut n = 0;
    while let Some(input) = session.prove_next(&mut runner, &mut files).unwrap() {
        assert!(input.starts_with("{\"addressInDecimal\":"));
        assert!(session.prove_next(&mut runner, &mut files).is_err());
        let calldata = format!("{}, 2, 3, 4", n);
        session.record_calldata(&calldata).unwrap();
        n += 1;
    }
    assert_eq!(n, 3);
    assert_eq!(runner.calls().len(), 9);
    assert_eq!(session.output_file(), "list.txt.proofs.json");
    assert!(session.finish(&mut files).is_ok());
    assert_eq!(
        files.get_written_content("list.txt.proofs.json"),
        Some("{\"0x1\":{\"input\":4,\"pA\":1,\"pB\":2,\"pC\":3},\"0x10\":{\"input\":4,\"pA\":2,\"pB\":2,\"pC\":3}}".to_string())
    );
}

#[test]
fn session_with_no_addresses_writes_empty_object() {
    let mut runner = MockCommandRunner::new();
    let mut files = MockFileSystemOps::new();
    let mut session = ProofsSession::new("none.txt", Vec::new());
    assert_eq!(session.prove_next(&mut runner, &mut files), Ok(None));
    assert!(runner.calls().is_empty());
    assert!(session.finish(&mut files).is_ok());
    assert_eq!(files.get_written_content("none.txt.proofs.json"), Some("{}".to_string()));
}

#[test]
fn session_refuses_out_of_turn_steps() {
    let mut runner = MockCommandRunner::new();
    let mut files = MockFileSystemOps::new();
    let mut session = ProofsSession::new("a.txt", vec!["0x1".to_string()]);
    assert!(session.record_calldata("1").is_err());
    assert!(session.finish(&mut files).is_err());
    assert!(session.prove_next(&mut runner, &mut files).unwrap().is_some());
    assert!(session.record_calldata("[").is_err());
    assert!(session.finish(&mut files).is_err());
    assert!(session.record_calldata("1").is_ok());
    assert_eq!(session.prove_next(&mut runner, &mut files), Ok(None));
    assert!(session.finish(&mut files).is_ok());
}

#[test]
fn session_stops_at_bad_address() {
    let mut runner = MockCommandRunner::new();
    let mut files = MockFileSystemOps::new();
    let mut session = ProofsSession::new("a.txt", vec!["0xzz".to_string()]);
    assert_eq!(
        session.prove_next(&mut runner, &mut files),
        Err("Failed to parse address to decimal".to_string())
    );
    assert!(runner.calls().is_empty());
    assert_eq!(files.get_written_content("input.json"), None);
}
