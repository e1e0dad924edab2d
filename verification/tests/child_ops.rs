use boundless::idempotency::{derive_child, derive_child_indexed, op_id_to_bytes};
use boundless::types::Hash32;
use soroban_sdk::{Bytes, Env};

fn sha256(env: &Env, data: &[u8]) -> [u8; 32] {
    env.crypto().sha256(&Bytes::from_slice(env, data)).to_array()
}

#[test]
fn op_id_bytes_are_big_endian_hi_then_lo() {
    let id = Hash32 { hi: 0x0102_0304_0506_0708_090a_0b0c_0d0e_0f10, lo: 0x1112_1314_1516_1718_191a_1b1c_1d1e_1f20 };
    let expected: Vec<u8> = (1u8..=32).collect();
    assert_eq!(op_id_to_bytes(&id), expected);
}

#[test]
fn child_id_is_the_digest_of_parent_tag_index_and_callee() {
    let env = Env::default();
    let parent = Hash32 { hi: 1, lo: 2 };
    let callee = vec![9u8, 8, 7];
    let mut payload = vec![0u8; 32];
    payload[15] = 1;
    payload[31] = 2;
    payload.extend_from_slice(&[0xB0, 3, 9, 8, 7]);
    let id = derive_child_indexed(&env, &parent, 0xB0, 3, &callee);
    assert_eq!(id, sha256(&env, &payload));
    assert_ne!(id.to_vec(), payload[..32].to_vec());
}

#[test]
fn child_ids_differ_by_tag_index_and_callee() {
    let env = Env::default();
    let parent = Hash32 { hi: 7, lo: 7 };
    let callee = vec![1u8, 2, 3];
    let bootstrap = derive_child(&env, &parent, 0xB0, &callee);
    assert_eq!(bootstrap, derive_child_indexed(&env, &parent, 0xB0, 0, &callee));
    assert_ne!(bootstrap, derive_child(&env, &parent, 0xD1, &callee));
    assert_ne!(bootstrap, derive_child_indexed(&env, &parent, 0xB0, 1, &callee));
    assert_ne!(bootstrap, derive_child(&env, &parent, 0xB0, &vec![1u8, 2, 4]));
    assert_ne!(bootstrap, derive_child(&env, &Hash32 { hi: 7, lo: 8 }, 0xB0, &callee));
}
