use uuid::Uuid;
use warehouse_facility::utils::{vec_contains, MetadataAddress};

const SCOPE_UUID: &str = "d1f0a3a5-c1c2-4f8e-a8c1-416e102d0520";
const SCOPE_BECH32: &str = "scope1qrglpga9c8pylr4gc9qkuypdq5sqph649l";

const SESSION_UUID: &str = "73b477e1-dfeb-4709-88cf-b0eb80830d3c";
const SESSION_BECH32: &str = "session1q8glpga9c8pylr4gc9qkuypdq5s88drhu807k3cf3r8mp6uqsvxnckjeje7";

const RECORD_UUID: &str = "518a6d56-01e4-4b81-9b80-848b42b97735";
const RECORD_NAME: &str = "TestRecordName";
const RECORD_BECH32: &str = "record1qfgc5m2kq8jyhqvmszzgks4ewu6edl6jlsvuseqr2lxusdwfutjggpy33s7";
const RECORD_NAME_SHA256: [u8; 16] = [
    0x96, 0xff, 0x52, 0xfc, 0x19, 0xc8, 0x64, 0x03, 0x57, 0xcd, 0xc8, 0x35, 0xc9, 0xe2, 0xe4, 0x84,
];

const SCOPE_SPEC_UUID: &str = "2e0222fc-901d-458a-aa21-604c14872e53";
const SCOPE_SPEC_BECH32: &str = "scopespec1qshqyghujqw5tz42y9syc9y89efs4rmd74";

const CONTRACT_SPEC_UUID: &str = "dd53a634-002b-40f8-926c-ac888d20f881";
const CONTRACT_SPEC_BECH32: &str = "contractspec1q0w48f35qq45p7yjdjkg3rfqlzqs0q4jgj";

const RECORD_SPEC_UUID: &str = "535b5c1c-bc5f-4d22-bfdd-1158828a3383";
const RECORD_SPEC_NAME: &str = "TestRecordSpecName";
const RECORD_SPEC_BECH32: &str =
    "recspec1q4f4khquh3056g4lm5g43q52xwps3at0tsx4rey0vds0663kl72uwkq2vex";
const RECORD_SPEC_NAME_SHA256: [u8; 16] = [
    0x08, 0xf5, 0x6f, 0x5c, 0x0d, 0x51, 0xe4, 0x8f, 0x63, 0x60, 0xfd, 0x6a, 0x36, 0xff, 0x95, 0xc7,
];

fn uuid_bytes(s: &str) -> [u8; 16] {
    *Uuid::parse_str(s).unwrap().as_bytes()
}

fn uuid_text(bytes: &[u8]) -> String {
    Uuid::from_slice(bytes).unwrap().to_hyphenated().to_string().to_lowercase()
}

#[test]
fn metadata_address_for_scope() {
    let scope_addr = MetadataAddress::for_scope(uuid_bytes(SCOPE_UUID));
    let result = scope_addr.to_string();
    assert_eq!(result, SCOPE_BECH32);
}

#[test]
fn metadata_address_for_session() {
    let session_addr =
        MetadataAddress::for_session(uuid_bytes(SCOPE_UUID), uuid_bytes(SESSION_UUID));
    let result = session_addr.to_string();
    assert_eq!(result, SESSION_BECH32);
}

#[test]
fn metadata_address_for_record() {
    let record_addr =
        MetadataAddress::for_record(uuid_bytes(RECORD_UUID), RECORD_NAME.to_string());
    let result = record_addr.to_string();
    assert_eq!(result, RECORD_BECH32);
}

#[test]
fn metadata_address_for_scope_specification() {
    let scope_spec_addr = MetadataAddress::for_scope_specification(uuid_bytes(SCOPE_SPEC_UUID));
    let result = scope_spec_addr.to_string();
    assert_eq!(result, SCOPE_SPEC_BECH32);
}

#[test]
fn metadata_address_for_contract_specification() {
    let contract_spec_addr =
        MetadataAddress::for_contract_specification(uuid_bytes(CONTRACT_SPEC_UUID));
    let result = contract_spec_addr.to_string();
    assert_eq!(result, CONTRACT_SPEC_BECH32);
}

#[test]
fn metadata_address_for_record_specification() {
    let record_spec_addr = MetadataAddress::for_record_specification(
        uuid_bytes(RECORD_SPEC_UUID),
        RECORD_SPEC_NAME.to_string(),
    );
    let result = record_spec_addr.to_string();
    assert_eq!(result, RECORD_SPEC_BECH32);
}

#[test]
fn metadata_address_for_scope_from_bech32() {
    let scope_addr = MetadataAddress::from_bech32(SCOPE_BECH32.to_string()).unwrap();
    let scope_uuid = uuid_text(&scope_addr.get_primary_uuid());
    assert_eq!(scope_uuid, SCOPE_UUID);
}

#[test]
fn metadata_address_for_session_from_bech32() {
    let session_addr = MetadataAddress::from_bech32(SESSION_BECH32.to_string()).unwrap();
    let scope_uuid = uuid_text(&session_addr.get_primary_uuid());
    assert_eq!(scope_uuid, SCOPE_UUID);
    let session_uuid = uuid_text(&session_addr.get_secondary_bytes());
    assert_eq!(session_uuid, SESSION_UUID);
}

#[test]
fn metadata_address_for_record_from_bech32() {
    let record_addr = MetadataAddress::from_bech32(RECORD_BECH32.to_string()).unwrap();
    let record_uuid = uuid_text(&record_addr.get_primary_uuid());
    assert_eq!(record_uuid, RECORD_UUID);
    let record_name_sha256 = record_addr.get_secondary_bytes();
    assert_eq!(record_name_sha256, RECORD_NAME_SHA256.to_vec());
}

#[test]
fn metadata_address_for_scope_specification_from_bech32() {
    let scope_spec_addr = MetadataAddress::from_bech32(SCOPE_SPEC_BECH32.to_string()).unwrap();
    let scope_spec_uuid = uuid_text(&scope_spec_addr.get_primary_uuid());
    assert_eq!(scope_spec_uuid, SCOPE_SPEC_UUID);
}

#[test]
fn metadata_address_for_contract_specification_from_bech32() {
    let contract_spec_addr =
        MetadataAddress::from_bech32(CONTRACT_SPEC_BECH32.to_string()).unwrap();
    let contract_spec_uuid = uuid_text(&contract_spec_addr.get_primary_uuid());
    assert_eq!(contract_spec_uuid, CONTRACT_SPEC_UUID);
}

#[test]
fn metadata_address_for_record_specification_from_bech32() {
    let record_spec_addr = MetadataAddress::from_bech32(RECORD_SPEC_BECH32.to_string()).unwrap();
    let record_spec_uuid = uuid_text(&record_spec_addr.get_primary_uuid());
    assert_eq!(record_spec_uuid, RECORD_SPEC_UUID);
    let record_spec_name_sha256 = record_spec_addr.get_secondary_bytes();
    assert_eq!(record_spec_name_sha256, RECORD_SPEC_NAME_SHA256.to_vec());
}

#[test]
fn metadata_address_keys_and_prefixes() {
    let scope_addr = MetadataAddress::for_scope(uuid_bytes(SCOPE_UUID));
    assert_eq!(scope_addr.get_key(), 0x00);
    assert_eq!(scope_addr.get_prefix(), "scope");
    assert!(scope_addr.get_secondary_bytes().is_empty());
    assert_eq!(MetadataAddress::get_prefix_from_key(0x03), "contractspec");
    assert_eq!(MetadataAddress::get_prefix_from_key(0x04), "scopespec");
    assert_eq!(MetadataAddress::get_prefix_from_key(0x09), "");
}

#[test]
fn metadata_address_validates_bytes() {
    assert!(!MetadataAddress::validate_bytes(&vec![]));
    assert!(!MetadataAddress::validate_bytes(&vec![0x00; 16]));
    assert!(MetadataAddress::validate_bytes(&vec![0x00; 17]));
    assert!(MetadataAddress::validate_bytes(&vec![0x01; 33]));
    assert!(!MetadataAddress::validate_bytes(&vec![0x07; 17]));
}

#[test]
fn metadata_address_rejects_mismatched_prefix() {
    let scope_addr = MetadataAddress::for_scope(uuid_bytes(SCOPE_UUID));
    assert!(MetadataAddress::from_bech32("not bech32".to_string()).is_none());
    let text = scope_addr.to_string();
    let renamed = text.replacen("scope", "record", 1);
    assert!(MetadataAddress::from_bech32(renamed).is_none());
}

#[test]
fn hashed_name_ignores_case() {
    let a = MetadataAddress::as_hashed_bytes("TestRecordName".to_string());
    let b = MetadataAddress::as_hashed_bytes("testrecordname".to_string());
    assert_eq!(a, b);
    assert_eq!(a, RECORD_NAME_SHA256.to_vec());
}

#[test]
fn vec_contains_and_has_any() {
    let a = vec!["x".to_string(), "y".to_string(), "z".to_string()];
    let b = vec!["y".to_string(), "z".to_string()];
    let c = vec!["q".to_string()];
    assert!(vec_contains(&a, &b));
    assert!(!vec_contains(&a, &c));
    assert!(warehouse_facility::utils::vec_has_any(&a, &b));
    assert!(!warehouse_facility::utils::vec_has_any(&a, &c));
    assert!(!warehouse_facility::utils::vec_has_any(&a, &[]));
}
