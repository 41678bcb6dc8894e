use payment_orders::helper_utils::{
    account_id, canister_main_account, default_account_id, fetch_value, generate_order_subaccount,
    get_heap_memory_size, new_subaccount, to_subaccount_bytes, u32_to_be_bytes, u64_to_be_bytes,
    validate_page_params,
};
use payment_orders::principal::{bytes_equal, copy_bytes, Principal};
use std::collections::HashSet;

fn principal(bytes: &[u8]) -> Principal {
    Principal::try_from_slice(&bytes.to_vec()).unwrap()
}

#[test]
fn subaccount_of_anonymous_payer_and_first_order() {
    let account = generate_order_subaccount(&Principal::anonymous(), 0);
    assert_eq!(
        account,
        vec![
            57, 72, 96, 67, 187, 194, 105, 145, 246, 94, 10, 196, 77, 252, 40, 126, 28, 126, 20,
            234, 163, 143, 189, 207, 145, 175, 147, 241, 65, 141, 186, 115
        ]
    );
}

#[test]
fn subaccount_of_a_ten_byte_payer() {
    let payer = principal(&[1, 2, 3, 4, 5, 6, 7, 8, 9, 10]);
    let account = generate_order_subaccount(&payer, 42);
    assert_eq!(
        account,
        vec![
            14, 98, 150, 192, 63, 113, 57, 225, 88, 214, 227, 6, 201, 0, 206, 180, 138, 254, 211,
            31, 0, 89, 86, 213, 27, 168, 254, 51, 18, 241, 135, 6
        ]
    );
}

#[test]
fn subaccount_has_thirty_two_bytes() {
    let payer = Principal::anonymous();
    let account = generate_order_subaccount(&payer, 7);
    assert_eq!(account.len(), 32);
    assert!(to_subaccount_bytes(&account).is_some());
}

#[test]
fn derivation_is_deterministic() {
    let payer = principal(&[9, 8, 7]);
    let first = generate_order_subaccount(&payer, 123_456);
    let second = generate_order_subaccount(&payer, 123_456);
    assert_eq!(first, second);
}

#[test]
fn derivation_changes_with_either_input() {
    let a = principal(&[1, 2, 3]);
    let b = principal(&[1, 2, 4]);
    assert_ne!(generate_order_subaccount(&a, 1), generate_order_subaccount(&a, 2));
    assert_ne!(generate_order_subaccount(&a, 1), generate_order_subaccount(&b, 1));
}

#[test]
fn derivation_has_no_collisions_over_ten_thousand_pairs() {
    let mut seen: HashSet<Vec<u8>> = HashSet::new();
    let mut inputs: HashSet<(Vec<u8>, u64)> = HashSet::new();
    let mut state: u64 = 0x2545_F491_4F6C_DD1D;
    while inputs.len() < 10_000 {
        state = state.wrapping_mul(6364136223846793005).wrapping_add(1442695040888963407);
        let id = state >> 16;
        state = state.wrapping_mul(6364136223846793005).wrapping_add(1442695040888963407);
        let len = 1 + ((state >> 33) % 29) as usize;
        let mut bytes = Vec::with_capacity(len);
        for _ in 0..len {
            state = state.wrapping_mul(6364136223846793005).wrapping_add(1442695040888963407);
            bytes.push((state >> 56) as u8);
        }
        if inputs.insert((bytes.clone(), id)) {
            let account = generate_order_subaccount(&principal(&bytes), id);
            assert!(seen.insert(account), "two pairs share a subaccount");
        }
    }
    assert_eq!(seen.len(), 10_000);
}

#[test]
fn big_endian_bytes_of_integers() {
    assert_eq!(
        u64_to_be_bytes(0x0102_0304_0506_0708),
        vec![1, 2, 3, 4, 5, 6, 7, 8]
    );
    assert_eq!(u64_to_be_bytes(u64::MAX), vec![255; 8]);
    assert_eq!(u64_to_be_bytes(0), vec![0; 8]);
    assert_eq!(u32_to_be_bytes(0xDEAD_BEEF), vec![0xDE, 0xAD, 0xBE, 0xEF]);
    assert_eq!(u32_to_be_bytes(1), vec![0, 0, 0, 1]);
}

#[test]
fn account_identifier_of_anonymous_owner() {
    let id = account_id(&Principal::anonymous(), None);
    assert_eq!(
        id.bytes,
        vec![
            28, 122, 72, 186, 106, 86, 42, 169, 234, 162, 72, 26, 144, 73, 205, 240, 67, 59, 151,
            56, 201, 146, 214, 152, 195, 29, 138, 191, 137, 202, 220, 121
        ]
    );
}

#[test]
fn account_identifier_under_a_subaccount() {
    let owner = principal(&[1, 2, 3, 4, 5, 6, 7, 8, 9, 10]);
    let mut sub = [0u8; 32];
    for (i, b) in sub.iter_mut().enumerate() {
        *b = i as u8;
    }
    let id = account_id(&owner, Some(sub));
    assert_eq!(
        id.bytes,
        vec![
            178, 77, 133, 216, 240, 54, 45, 106, 180, 212, 32, 124, 143, 145, 194, 0, 213, 110,
            194, 91, 95, 221, 255, 43, 30, 213, 29, 146, 176, 167, 122, 108
        ]
    );
}

#[test]
fn main_account_in_hex_and_bytes() {
    let service = Principal::anonymous();
    let (text, bytes) = canister_main_account(&service);
    assert_eq!(
        text,
        "1c7a48ba6a562aa9eaa2481a9049cdf0433b9738c992d698c31d8abf89cadc79"
    );
    assert_eq!(bytes, default_account_id(&service).bytes);
    assert_eq!(bytes.len(), 32);
}

#[test]
fn subaccount_bytes_need_exactly_thirty_two() {
    assert!(to_subaccount_bytes(&vec![0u8; 31]).is_none());
    assert!(to_subaccount_bytes(&vec![0u8; 33]).is_none());
    let bytes: Vec<u8> = (0u8..32).collect();
    let sub = to_subaccount_bytes(&bytes).unwrap();
    assert_eq!(sub.to_vec(), bytes);
}

#[test]
fn optional_subaccount_is_wrapped() {
    assert!(new_subaccount(None).is_none());
    let wrapped = new_subaccount(Some([7u8; 32])).unwrap();
    assert_eq!(wrapped.0, [7u8; 32]);
}

#[test]
fn page_params_are_normalised() {
    assert_eq!(validate_page_params(0, 0), (1, 10));
    assert_eq!(validate_page_params(3, 100), (3, 100));
    assert_eq!(validate_page_params(2, 101), (2, 10));
    assert_eq!(validate_page_params(1, 1), (1, 1));
    assert_eq!(validate_page_params(usize::MAX, 50), (usize::MAX, 50));
}

#[test]
fn value_is_fetched_only_on_request() {
    assert_eq!(fetch_value(true, || 5u64), Some(5));
    assert_eq!(fetch_value(false, || 5u64), None);
}

#[test]
fn heap_size_outside_a_wasm_runtime() {
    assert_eq!(get_heap_memory_size(), 0);
}

#[test]
fn principals_compare_by_bytes() {
    let a = principal(&[1, 2, 3]);
    let b = principal(&[1, 2, 3]);
    let c = principal(&[1, 2]);
    assert!(a.same_as(&b));
    assert!(!a.same_as(&c));
    assert!(a.duplicate().same_as(&a));
    assert_eq!(Principal::anonymous().as_slice(), &vec![4u8]);
    assert!(Principal::try_from_slice(&vec![0u8; 29]).is_some());
    assert!(Principal::try_from_slice(&vec![0u8; 30]).is_none());
    assert!(bytes_equal(&vec![1, 2], &vec![1, 2]));
    assert!(!bytes_equal(&vec![1, 2], &vec![1, 3]));
    assert_eq!(copy_bytes(&vec![5, 6, 7]), vec![5, 6, 7]);
}
