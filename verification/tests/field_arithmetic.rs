use arith_circuit::field::Field;
use arith_circuit::pallas::PallasBase;

/// The modulus, least significant byte first.
const MODULUS: [u8; 32] = [
    0x01, 0x00, 0x00, 0x00, 0xed, 0x30, 0x2d, 0x99, 0x1b, 0xf9, 0x4c, 0x09, 0xfc, 0x98, 0x46, 0x22,
    0x00, 0x00, 0x00, 0x00, 0x00, 0x00, 0x00, 0x00, 0x00, 0x00, 0x00, 0x00, 0x00, 0x00, 0x00, 0x40,
];

fn modulus_minus_one() -> [u8; 32] {
    let mut bytes = MODULUS;
    bytes[0] = 0x00;
    bytes
}

fn small(x: u64) -> [u8; 32] {
    let mut bytes = [0u8; 32];
    bytes[..8].copy_from_slice(&x.to_le_bytes());
    bytes
}

#[test]
fn small_sums_are_exact() {
    let a = PallasBase::from_u64(2);
    let b = PallasBase::from_u64(3);
    assert_eq!(a.add(&b).to_bytes(), small(5));
    assert!(a.add(&b).same(&PallasBase::from_u64(5)));
    assert!(!a.add(&b).same(&a));
}

#[test]
fn small_products_are_exact() {
    let a = PallasBase::from_u64(6);
    let b = PallasBase::from_u64(7);
    assert_eq!(a.mul(&b).to_bytes(), small(42));
    assert_eq!(a.mul(&PallasBase::zero()).to_bytes(), small(0));
    assert_eq!(a.mul(&PallasBase::one()).to_bytes(), small(6));
}

#[test]
fn from_u64_keeps_the_number() {
    let x = PallasBase::from_u64(0x0102_0304_0506_0708);
    let mut expected = [0u8; 32];
    expected[..8].copy_from_slice(&[0x08, 0x07, 0x06, 0x05, 0x04, 0x03, 0x02, 0x01]);
    assert_eq!(x.to_bytes(), expected);
    assert_eq!(PallasBase::from_u64(u64::MAX).to_bytes(), small(u64::MAX));
}

#[test]
fn zero_and_one_are_the_identities() {
    assert_eq!(PallasBase::zero().to_bytes(), small(0));
    assert_eq!(PallasBase::one().to_bytes(), small(1));
    assert!(!PallasBase::zero().same(&PallasBase::one()));
    let a = PallasBase::from_u64(99);
    assert!(a.add(&PallasBase::zero()).same(&a));
    assert!(a.mul(&PallasBase::one()).same(&a));
}

#[test]
fn subtraction_wraps_below_zero() {
    let zero = PallasBase::zero();
    let one = PallasBase::one();
    let minus_one = zero.sub(&one);
    assert_eq!(minus_one.to_bytes(), modulus_minus_one());
    assert!(minus_one.same(&one.neg()));
    assert!(minus_one.add(&one).same(&zero));
    assert_eq!(PallasBase::from_u64(9).sub(&PallasBase::from_u64(4)).to_bytes(), small(5));
}

#[test]
fn addition_wraps_at_the_modulus() {
    let top = PallasBase::from_bytes(modulus_minus_one()).unwrap();
    assert_eq!(top.add(&PallasBase::one()).to_bytes(), small(0));
    assert_eq!(top.add(&PallasBase::from_u64(3)).to_bytes(), small(2));
}

#[test]
fn minus_one_squared_is_one() {
    let top = PallasBase::from_bytes(modulus_minus_one()).unwrap();
    assert_eq!(top.mul(&top).to_bytes(), small(1));
}

#[test]
fn negation_of_zero_is_zero() {
    assert_eq!(PallasBase::zero().neg().to_bytes(), small(0));
    let five = PallasBase::from_u64(5);
    assert!(five.neg().add(&five).same(&PallasBase::zero()));
    assert!(!five.neg().same(&five));
}

#[test]
fn only_reduced_bytes_are_accepted() {
    assert!(PallasBase::from_bytes(MODULUS).is_none());
    assert!(PallasBase::from_bytes([0xff; 32]).is_none());
    let top = PallasBase::from_bytes(modulus_minus_one());
    assert_eq!(top.unwrap().to_bytes(), modulus_minus_one());
    assert_eq!(PallasBase::from_bytes(small(17)).unwrap(), PallasBase::from_u64(17));
}

#[test]
fn same_tells_elements_apart() {
    let a = PallasBase::from_u64(12);
    assert!(a.same(&PallasBase::from_u64(12)));
    assert!(!a.same(&PallasBase::from_u64(13)));
    assert!(!a.same(&a.neg()));
}
