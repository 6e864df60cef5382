//! The registry: key uniqueness across tables sharing one generator, and
//! garbage collection reporting double frees.

use thrift_ffi::interning::InternKey;
use thrift_ffi::interning::Interns;
use thrift_ffi::interning::KeyGenerator;

#[test]
fn no_colliding_keys() {
    let mut generator = KeyGenerator::new();
    let mut table_a: Interns<u64> = Interns::new();
    let mut table_b: Interns<u64> = Interns::new();

    let a = table_a.intern(&mut generator, 1).unwrap();
    let a_1 = table_a.intern(&mut generator, 2).unwrap();

    assert_ne!(a, a_1);
    assert_ne!(*table_a.get(a).unwrap(), *table_a.get(a_1).unwrap());

    let b = table_b.intern(&mut generator, 1).unwrap();
    let b_1 = table_b.intern(&mut generator, 1).unwrap();

    assert_ne!(b.value(), a.value());
    assert_ne!(b.value(), a_1.value());

    assert_ne!(b, b_1);
    assert_eq!(*table_b.get(b).unwrap(), *table_b.get(b_1).unwrap());
}

#[test]
fn keys_increase_and_never_repeat() {
    let mut generator = KeyGenerator::new();
    let mut table: Interns<u64> = Interns::new();
    let mut seen: Vec<InternKey> = Vec::new();
    let mut value: u64 = 0;
    while value < 8 {
        let key = table.intern(&mut generator, value).unwrap();
        for earlier in seen.iter() {
            assert_ne!(*earlier, key);
        }
        seen.push(key);
        value = value + 1;
    }
}

#[test]
fn garbage_collect_succeeds_exactly_once() {
    let mut generator = KeyGenerator::new();
    let mut table: Interns<u64> = Interns::new();
    let key = table.intern(&mut generator, 7).unwrap();
    assert!(table.get(key).is_ok());
    assert!(table.garbage_collect(key).is_ok());
    assert!(table.garbage_collect(key).is_err());
    assert!(table.garbage_collect(key).is_err());
    assert!(table.get(key).is_err());
    // a later intern never resurrects the collected key
    let fresh = table.intern(&mut generator, 9).unwrap();
    assert_ne!(fresh, key);
    assert!(table.garbage_collect(key).is_err());
}

#[test]
fn fabricated_keys_dangle() {
    let mut generator = KeyGenerator::new();
    let mut table: Interns<u64> = Interns::new();
    let real = table.intern(&mut generator, 3).unwrap();
    let bogus = InternKey::from_value(real.value() + 40);
    assert!(table.get(bogus).is_err());
    assert!(table.garbage_collect(bogus).is_err());
    assert!(table.get(real).is_ok());
}
