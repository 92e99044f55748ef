use anchor_lang::solana_program::pubkey::Pubkey;
use counter::address::Address;
use counter::pda::derive_counter_address;

#[test]
fn derivation_is_stable() {
    let program_id = Address { bytes: [3u8; 32] };
    let (first, first_bump) = derive_counter_address(&program_id).expect("a bump must be found");
    let (second, second_bump) = derive_counter_address(&program_id).expect("a bump must be found");
    assert_eq!(first.bytes, second.bytes);
    assert_eq!(first_bump, second_bump);
}

#[test]
fn derivation_matches_host_search() {
    let program_bytes = [7u8; 32];
    let program_id = Address { bytes: program_bytes };
    let (addr, bump) = derive_counter_address(&program_id).expect("a bump must be found");

    let host_program = Pubkey::new_from_array(program_bytes);
    let (host_addr, host_bump) =
        Pubkey::try_find_program_address(&[b"counter"], &host_program).expect("host search");
    assert_eq!(addr.bytes, host_addr.to_bytes());
    assert_eq!(bump, host_bump);
}

#[test]
fn derivation_depends_on_program_identity() {
    let a = derive_counter_address(&Address { bytes: [1u8; 32] }).unwrap();
    let b = derive_counter_address(&Address { bytes: [2u8; 32] }).unwrap();
    assert_ne!(a.0.bytes, b.0.bytes);
}

#[test]
fn address_equals_compares_bytes() {
    let a = Address { bytes: [9u8; 32] };
    let b = Address { bytes: [9u8; 32] };
    let mut c_bytes = [9u8; 32];
    c_bytes[31] = 8;
    let c = Address { bytes: c_bytes };
    assert!(a.equals(&b));
    assert!(!a.equals(&c));
}
