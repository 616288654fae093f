use state_lock::default::{HasDefault, NoDefaultImplement};

struct A;

#[test]
fn default_check() {
    let a = HasDefault::<i32>::HAS_DEFAULT;
    assert!(a);
    let b = HasDefault::<A>::HAS_DEFAULT;
    assert!(!b);

    assert_eq!(0, HasDefault::<i32>::tear_up());
}
