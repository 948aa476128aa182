use record_store::address::{derive_address, Key, MAX_SEED_LEN};
use record_store::codec::DecodeError;
use record_store::handler::{
    close_account, operation_kind, plan_create, store_record, Account, HandlerError,
    OperationKind,
};
use record_store::{process_transaction, Image};

const PROGRAM: Key = [7u8; 32];
const OWNER_A: Key = [1u8; 32];
const OWNER_B: Key = [2u8; 32];
const SYSTEM: Key = [0u8; 32];

fn image(title: &str, url: &str) -> Image {
    Image { title: title.to_string(), url: url.to_string() }
}

fn account(key: Key, lamports: u64, data: Vec<u8>) -> Account {
    Account { key, lamports, data }
}

fn address_of(owner: &Key, title: &str) -> (Key, u8) {
    derive_address(owner, title.as_bytes(), &PROGRAM).unwrap()
}

/// A record created for `owner`, as the runtime leaves it once allocated and written.
fn created(owner: &Key, title: &str, url: &str, lamports: u64) -> Account {
    let payload = image(title, url).encode();
    let (key, _) = address_of(owner, title);
    let mut slot = account(key, lamports, vec![0u8; payload.len()]);
    store_record(&mut slot, &image(title, url)).unwrap();
    slot
}

#[test]
fn encode_layout() {
    let bytes = image("t", "u").encode();
    let mut expected = vec![1u8, 0, 0, 0, 0, 0, 0, 0, b't'];
    expected.extend_from_slice(&[1u8, 0, 0, 0, 0, 0, 0, 0, b'u']);
    assert_eq!(bytes, expected);
}

#[test]
fn encode_matches_bincode_of_title_then_url() {
    let bytes = image("art1", "http://x").encode();
    let reference = bincode::serialize(&("art1".to_string(), "http://x".to_string())).unwrap();
    assert_eq!(bytes, reference);
}

#[test]
fn round_trip() {
    let r = image("t", "u");
    assert_eq!(Image::decode(&r.encode()), Ok(r));
    let r = image("caf\u{e9} \u{1f600}", "https://example.org/a?b=c");
    assert_eq!(Image::decode(&r.encode()), Ok(r));
    let r = image("", "");
    assert_eq!(Image::decode(&r.encode()), Ok(r));
}

#[test]
fn decode_ignores_trailing_bytes() {
    let mut bytes = image("t", "u").encode();
    bytes.extend_from_slice(&[0u8; 5]);
    assert_eq!(Image::decode(&bytes), Ok(image("t", "u")));
}

#[test]
fn decode_rejects_malformed_bytes() {
    assert_eq!(Image::decode(&[]), Err(DecodeError));
    assert_eq!(Image::decode(&[1, 0, 0]), Err(DecodeError));
    // a title length past the end
    assert_eq!(Image::decode(&[9, 0, 0, 0, 0, 0, 0, 0, b'a']), Err(DecodeError));
    // a length prefix near u64::MAX
    assert_eq!(Image::decode(&[255u8; 16]), Err(DecodeError));
    // the title is not UTF-8
    let bytes = [1u8, 0, 0, 0, 0, 0, 0, 0, 0xff, 0, 0, 0, 0, 0, 0, 0, 0];
    assert_eq!(Image::decode(&bytes), Err(DecodeError));
    // the URL is missing
    let bytes = [1u8, 0, 0, 0, 0, 0, 0, 0, b't'];
    assert_eq!(Image::decode(&bytes), Err(DecodeError));
}

#[test]
fn derivation_is_deterministic() {
    assert_eq!(address_of(&OWNER_A, "art1"), address_of(&OWNER_A, "art1"));
}

#[test]
fn derivation_separates_titles_and_owners() {
    assert_ne!(address_of(&OWNER_A, "a").0, address_of(&OWNER_A, "b").0);
    assert_ne!(address_of(&OWNER_A, "art1").0, address_of(&OWNER_B, "art1").0);
    assert_ne!(address_of(&OWNER_A, "art1").0, OWNER_A);
}

#[test]
fn derivation_refuses_long_titles() {
    let longest = "x".repeat(MAX_SEED_LEN);
    assert!(derive_address(&OWNER_A, longest.as_bytes(), &PROGRAM).is_some());
    let too_long = "x".repeat(MAX_SEED_LEN + 1);
    assert_eq!(derive_address(&OWNER_A, too_long.as_bytes(), &PROGRAM), None);
}

#[test]
fn operation_kind_by_payload_length() {
    assert_eq!(operation_kind(&[]), OperationKind::Close);
    assert_eq!(operation_kind(&[0]), OperationKind::Create);
}

#[test]
fn create_at_derived_address() {
    let payload = image("art1", "http://x").encode();
    let (key, bump) = address_of(&OWNER_A, "art1");
    let mut signer = account(OWNER_A, 1_000, vec![]);
    let mut slot = account(key, 0, vec![]);
    let req = process_transaction(&PROGRAM, &mut signer, &mut slot, &SYSTEM, &payload, 42)
        .unwrap()
        .unwrap();
    assert_eq!(req.payer, OWNER_A);
    assert_eq!(req.target, key);
    assert_eq!(req.lamports, 42);
    assert_eq!(req.space, payload.len() as u64);
    assert_eq!(req.owner_program, PROGRAM);
    assert_eq!(req.bump, bump);
    assert_eq!(req.record, image("art1", "http://x"));
    assert_eq!(signer.lamports, 1_000);
    assert!(slot.data.is_empty());
}

#[test]
fn create_then_read() {
    let payload = image("art1", "http://x").encode();
    let (key, _) = address_of(&OWNER_A, "art1");
    let req = plan_create(&PROGRAM, &OWNER_A, &key, &payload, 42).unwrap();
    let mut slot = account(key, req.lamports, vec![0u8; req.space as usize]);
    store_record(&mut slot, &req.record).unwrap();
    assert_eq!(slot.data, payload);
    assert_eq!(Image::decode(&slot.data), Ok(image("art1", "http://x")));
}

#[test]
fn create_with_trailing_payload_bytes_pads_with_zeros() {
    let mut payload = image("art1", "http://x").encode();
    let record_len = payload.len();
    payload.extend_from_slice(&[9u8; 3]);
    let (key, _) = address_of(&OWNER_A, "art1");
    let req = plan_create(&PROGRAM, &OWNER_A, &key, &payload, 1).unwrap();
    let mut slot = account(key, 1, vec![0u8; req.space as usize]);
    store_record(&mut slot, &req.record).unwrap();
    assert_eq!(&slot.data[..record_len], &payload[..record_len]);
    assert_eq!(&slot.data[record_len..], &[0u8; 3]);
}

#[test]
fn create_at_other_address_is_refused() {
    let payload = image("art1", "http://x").encode();
    let (other, _) = address_of(&OWNER_A, "art2");
    let mut signer = account(OWNER_A, 1_000, vec![]);
    let mut slot = account(other, 0, vec![]);
    let r = process_transaction(&PROGRAM, &mut signer, &mut slot, &SYSTEM, &payload, 42);
    assert_eq!(r.unwrap_err(), HandlerError::InvalidArgument);
    let r = plan_create(&PROGRAM, &OWNER_B, &address_of(&OWNER_A, "art1").0, &payload, 42);
    assert_eq!(r.unwrap_err(), HandlerError::InvalidArgument);
}

#[test]
fn create_with_undecodable_payload_is_refused() {
    let (key, _) = address_of(&OWNER_A, "art1");
    let r = plan_create(&PROGRAM, &OWNER_A, &key, &[3, 0, 0], 42);
    assert_eq!(r.unwrap_err(), HandlerError::InvalidArgument);
}

#[test]
fn create_with_long_title_is_refused() {
    let title = "x".repeat(MAX_SEED_LEN + 1);
    let payload = image(&title, "u").encode();
    let r = plan_create(&PROGRAM, &OWNER_A, &OWNER_B, &payload, 42);
    assert_eq!(r.unwrap_err(), HandlerError::InvalidArgument);
}

#[test]
fn store_into_small_account_is_refused() {
    let mut slot = account(OWNER_B, 5, vec![1u8; 4]);
    let r = store_record(&mut slot, &image("t", "u"));
    assert_eq!(r, Err(HandlerError::AccountDataTooSmall));
    assert_eq!(slot.data, vec![1u8; 4]);
    assert_eq!(slot.lamports, 5);
}

#[test]
fn wrong_system_program_is_refused() {
    let payload = image("art1", "http://x").encode();
    let mut signer = account(OWNER_A, 1_000, vec![]);
    let mut slot = created(&OWNER_A, "art1", "http://x", 500);
    let before = slot.data.clone();
    let r = process_transaction(&PROGRAM, &mut signer, &mut slot, &[3u8; 32], &payload, 42);
    assert_eq!(r.unwrap_err(), HandlerError::InvalidArgument);
    let r = process_transaction(&PROGRAM, &mut signer, &mut slot, &[3u8; 32], &[], 42);
    assert_eq!(r.unwrap_err(), HandlerError::InvalidArgument);
    assert_eq!(signer.lamports, 1_000);
    assert_eq!(slot.lamports, 500);
    assert_eq!(slot.data, before);
}

#[test]
fn close_by_owner_drains_the_record() {
    let mut signer = account(OWNER_A, 1_000, vec![]);
    let mut slot = created(&OWNER_A, "art1", "http://x", 500);
    let len = slot.data.len();
    let r = process_transaction(&PROGRAM, &mut signer, &mut slot, &SYSTEM, &[], 0);
    assert!(matches!(r, Ok(None)));
    assert_eq!(signer.lamports, 1_500);
    assert_eq!(signer.key, OWNER_A);
    assert_eq!(slot.lamports, 0);
    assert_eq!(slot.data, vec![0u8; len]);
}

#[test]
fn close_by_other_owner_is_refused() {
    let mut signer = account(OWNER_B, 1_000, vec![]);
    let mut slot = created(&OWNER_A, "art1", "http://x", 500);
    let before = slot.data.clone();
    let r = close_account(&mut signer, &mut slot, &PROGRAM);
    assert_eq!(r, Err(HandlerError::IllegalOwner));
    assert_eq!(signer.lamports, 1_000);
    assert_eq!(slot.lamports, 500);
    assert_eq!(slot.data, before);
}

#[test]
fn close_of_empty_account_is_refused() {
    let mut signer = account(OWNER_A, 1_000, vec![]);
    let mut slot = account(address_of(&OWNER_A, "art1").0, 500, vec![]);
    let r = close_account(&mut signer, &mut slot, &PROGRAM);
    assert_eq!(r, Err(HandlerError::DecodeError));
    let mut truncated = account(address_of(&OWNER_A, "art1").0, 500, vec![0u8; 5]);
    let r = process_transaction(&PROGRAM, &mut signer, &mut truncated, &SYSTEM, &[], 0);
    assert_eq!(r.unwrap_err(), HandlerError::DecodeError);
    assert_eq!(truncated.lamports, 500);
}

#[test]
fn close_of_zeroed_account_is_refused() {
    // sixteen zero bytes encode a record with an empty title and URL, whose
    // address is not this one
    let mut signer = account(OWNER_A, 1_000, vec![]);
    let mut zeroed = account(address_of(&OWNER_A, "art1").0, 500, vec![0u8; 30]);
    let r = process_transaction(&PROGRAM, &mut signer, &mut zeroed, &SYSTEM, &[], 0);
    assert_eq!(r.unwrap_err(), HandlerError::IllegalOwner);
    assert_eq!(zeroed.lamports, 500);
    assert_eq!(signer.lamports, 1_000);
}

#[test]
fn close_with_overflowing_balance_is_refused() {
    let mut signer = account(OWNER_A, u64::MAX, vec![]);
    let mut slot = created(&OWNER_A, "art1", "http://x", 1);
    let r = close_account(&mut signer, &mut slot, &PROGRAM);
    assert_eq!(r, Err(HandlerError::ArithmeticOverflow));
    assert_eq!(signer.lamports, u64::MAX);
    assert_eq!(slot.lamports, 1);
}
