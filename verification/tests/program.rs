use counter::address::Address;
use counter::addressed;
use counter::free;
use counter::incremented;
use counter::ledger::Ledger;
use counter::pda::derive_counter_address;
use counter::CounterError;

fn addr(fill: u8) -> Address {
    Address { bytes: [fill; 32] }
}

#[test]
fn record_footprint_is_fixed() {
    assert_eq!(counter::RECORD_SPACE, 16);
}

#[test]
fn incremented_steps_by_one() {
    assert_eq!(incremented(0), Ok(1));
    assert_eq!(incremented(41), Ok(42));
}

#[test]
fn incremented_fails_at_boundary() {
    assert_eq!(incremented(u64::MAX), Err(CounterError::ValueOverflow));
}

#[test]
fn addressed_scenario() {
    let program_id = addr(11);
    let payer = addr(12);
    let mut ledger = Ledger::new();
    let (counter_addr, _bump) = derive_counter_address(&program_id).expect("a bump must be found");

    let init = addressed::Initialize { payer, payer_is_signer: true };
    assert_eq!(addressed::initialize(&mut ledger, &program_id, &init), Ok(()));
    assert_eq!(ledger.read(&counter_addr), Some(0));

    let inc = addressed::Increment { counter: counter_addr };
    assert_eq!(addressed::increment(&mut ledger, &program_id, &inc), Ok(()));
    assert_eq!(ledger.read(&counter_addr), Some(1));
    assert_eq!(addressed::increment(&mut ledger, &program_id, &inc), Ok(()));
    assert_eq!(ledger.read(&counter_addr), Some(2));

    // A duplicate initialization attempt after the first succeeded is
    // rejected and the value stays at 2.
    assert_eq!(
        addressed::initialize(&mut ledger, &program_id, &init),
        Err(CounterError::AlreadyInUse)
    );
    assert_eq!(ledger.read(&counter_addr), Some(2));
}

#[test]
fn addressed_initialize_requires_signer() {
    let program_id = addr(21);
    let mut ledger = Ledger::new();
    let init = addressed::Initialize { payer: addr(22), payer_is_signer: false };
    assert_eq!(
        addressed::initialize(&mut ledger, &program_id, &init),
        Err(CounterError::MissingSignature)
    );
    let (counter_addr, _bump) = derive_counter_address(&program_id).unwrap();
    assert_eq!(ledger.read(&counter_addr), None);
}

#[test]
fn addressed_increment_rejects_wrong_address() {
    let program_id = addr(31);
    let mut ledger = Ledger::new();
    let init = addressed::Initialize { payer: addr(32), payer_is_signer: true };
    assert_eq!(addressed::initialize(&mut ledger, &program_id, &init), Ok(()));

    let substituted = addr(33);
    let inc = addressed::Increment { counter: substituted };
    assert_eq!(
        addressed::increment(&mut ledger, &program_id, &inc),
        Err(CounterError::AddressMismatch)
    );
    let (counter_addr, _bump) = derive_counter_address(&program_id).unwrap();
    assert_eq!(ledger.read(&counter_addr), Some(0));
    assert_eq!(ledger.read(&substituted), None);
}

#[test]
fn addressed_many_increments_count() {
    let program_id = addr(41);
    let mut ledger = Ledger::new();
    let init = addressed::Initialize { payer: addr(42), payer_is_signer: true };
    assert_eq!(addressed::initialize(&mut ledger, &program_id, &init), Ok(()));
    let (counter_addr, _bump) = derive_counter_address(&program_id).unwrap();
    let inc = addressed::Increment { counter: counter_addr };
    for _ in 0..100 {
        assert_eq!(addressed::increment(&mut ledger, &program_id, &inc), Ok(()));
    }
    assert_eq!(ledger.read(&counter_addr), Some(100));
}

#[test]
fn free_scenario() {
    let program_id = addr(51);
    let counter_addr = addr(52);
    let mut ledger = Ledger::new();

    let init = free::Initialize {
        counter: counter_addr,
        counter_is_signer: true,
        payer: addr(53),
        payer_is_signer: true,
    };
    assert_eq!(free::initialize(&mut ledger, &program_id, &init), Ok(()));
    assert_eq!(ledger.read(&counter_addr), Some(0));

    let inc = free::Increment { counter: counter_addr };
    assert_eq!(free::increment(&mut ledger, &program_id, &inc), Ok(()));
    assert_eq!(ledger.read(&counter_addr), Some(1));
    assert_eq!(free::increment(&mut ledger, &program_id, &inc), Ok(()));
    assert_eq!(ledger.read(&counter_addr), Some(2));

    assert_eq!(
        free::initialize(&mut ledger, &program_id, &init),
        Err(CounterError::AlreadyInUse)
    );
    assert_eq!(ledger.read(&counter_addr), Some(2));
}

#[test]
fn independent_records_do_not_interfere() {
    let program_id = addr(131);
    let first = addr(132);
    let second = addr(133);
    let mut ledger = Ledger::new();
    for counter_addr in [first, second] {
        let init = free::Initialize {
            counter: counter_addr,
            counter_is_signer: true,
            payer: addr(134),
            payer_is_signer: true,
        };
        assert_eq!(free::initialize(&mut ledger, &program_id, &init), Ok(()));
    }
    let inc = free::Increment { counter: first };
    assert_eq!(free::increment(&mut ledger, &program_id, &inc), Ok(()));
    assert_eq!(ledger.read(&first), Some(1));
    assert_eq!(ledger.read(&second), Some(0));
}

#[test]
fn free_increment_missing_record_fails() {
    let program_id = addr(61);
    let mut ledger = Ledger::new();
    let inc = free::Increment { counter: addr(62) };
    assert_eq!(
        free::increment(&mut ledger, &program_id, &inc),
        Err(CounterError::AccountNotFound)
    );
}

#[test]
fn free_initialize_requires_cosigner() {
    let program_id = addr(71);
    let counter_addr = addr(72);
    let mut ledger = Ledger::new();
    let init = free::Initialize {
        counter: counter_addr,
        counter_is_signer: false,
        payer: addr(73),
        payer_is_signer: true,
    };
    assert_eq!(
        free::initialize(&mut ledger, &program_id, &init),
        Err(CounterError::MissingSignature)
    );
    assert_eq!(ledger.read(&counter_addr), None);
}

#[test]
fn foreign_record_cannot_be_incremented() {
    let program_id = addr(81);
    let other_program = addr(82);
    let counter_addr = addr(83);
    let mut ledger = Ledger::new();
    assert_eq!(ledger.allocate(&counter_addr, &other_program), Ok(()));
    let inc = free::Increment { counter: counter_addr };
    assert_eq!(
        free::increment(&mut ledger, &program_id, &inc),
        Err(CounterError::WrongOwner)
    );
    assert_eq!(ledger.read(&counter_addr), Some(0));
}

#[test]
fn increment_fails_fast_at_boundary() {
    let program_id = addr(91);
    let counter_addr = addr(92);
    let mut ledger = Ledger::new();
    let init = free::Initialize {
        counter: counter_addr,
        counter_is_signer: true,
        payer: addr(93),
        payer_is_signer: true,
    };
    assert_eq!(free::initialize(&mut ledger, &program_id, &init), Ok(()));
    assert_eq!(ledger.write_value(&counter_addr, u64::MAX), Ok(()));
    let inc = free::Increment { counter: counter_addr };
    assert_eq!(
        free::increment(&mut ledger, &program_id, &inc),
        Err(CounterError::ValueOverflow)
    );
    assert_eq!(ledger.read(&counter_addr), Some(u64::MAX));
}

#[test]
fn ledger_allocate_is_allocate_if_absent() {
    let owner = addr(101);
    let target = addr(102);
    let mut ledger = Ledger::new();
    assert_eq!(ledger.allocate(&target, &owner), Ok(()));
    assert_eq!(ledger.allocate(&target, &owner), Err(CounterError::AlreadyInUse));
    assert_eq!(ledger.read(&target), Some(0));
}

#[test]
fn ledger_assert_owner_checks_presence_and_owner() {
    let owner = addr(111);
    let stranger = addr(112);
    let target = addr(113);
    let mut ledger = Ledger::new();
    assert_eq!(
        ledger.assert_owner(&target, &owner),
        Err(CounterError::AccountNotFound)
    );
    assert_eq!(ledger.allocate(&target, &owner), Ok(()));
    assert_eq!(ledger.assert_owner(&target, &owner), Ok(()));
    assert_eq!(
        ledger.assert_owner(&target, &stranger),
        Err(CounterError::WrongOwner)
    );
}

#[test]
fn ledger_write_value_needs_a_record() {
    let mut ledger = Ledger::new();
    assert_eq!(
        ledger.write_value(&addr(121), 5),
        Err(CounterError::AccountNotFound)
    );
}
