use boundless::projects::{BoundlessContract, BoundlessError};

#[test]
fn test_initialize() {
    let mut c = BoundlessContract::new();
    c.initialize(5).unwrap();
    assert_eq!(c.get_admin(), 5);
    assert_eq!(c.get_version(), 1);
}

#[test]
#[should_panic]
fn test_initialize_already_initialized() {
    let mut c = BoundlessContract::new();
    c.initialize(5).unwrap();
    let err: Result<(), BoundlessError> = c.initialize(5);
    err.unwrap();
}
