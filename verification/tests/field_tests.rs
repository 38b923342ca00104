use hyperplonk::dynamic_field::DynamicField;
use hyperplonk::ext_field::as_bytes_vec;
use hyperplonk::ext_field::batch_inverse;
use hyperplonk::ext_field::Goldilocks64Ext;
use hyperplonk::field::Goldilocks64;
use hyperplonk::field::MOD;

#[test]
fn base_field_arithmetic() {
    let a = Goldilocks64::from_u64(1u64 << 32);
    // 2^32 * 2^32 = 2^64 = 2^32 - 1 (mod p)
    assert_eq!(a.mul(a).v, (1u64 << 32) - 1);
    let two = Goldilocks64::from_u32(2);
    assert_eq!(two.exp(10).v, 1024);
    // the inverse of 2 is (p + 1) / 2
    let inv2 = two.inv().unwrap();
    assert_eq!(inv2.v, 9223372034707292161);
    assert_eq!(two.mul(inv2).v, 1);
    assert!(Goldilocks64::zero().inv().is_none());
    // negation and subtraction agree
    let x = Goldilocks64::from_u64(12345);
    assert_eq!(Goldilocks64::zero().sub(x).v, x.neg().v);
    assert_eq!(x.add(x.neg()).v, 0);
    // oversized raw words reduce into the canonical range
    let reduced = Goldilocks64::from_u64(u64::MAX);
    assert!(reduced.v < MOD);
    assert_eq!(reduced.v, u64::MAX - MOD);
}

#[test]
fn ext_field_arithmetic() {
    // (1 + 2x)(3 + 4x) = 3 + 8*7 + 10x = 59 + 10x
    let a = Goldilocks64Ext {
        c0: Goldilocks64::from_u32(1),
        c1: Goldilocks64::from_u32(2),
    };
    let b = Goldilocks64Ext {
        c0: Goldilocks64::from_u32(3),
        c1: Goldilocks64::from_u32(4),
    };
    let p = a.mul(b);
    assert_eq!(p.c0.v, 59);
    assert_eq!(p.c1.v, 10);
    // inverses really invert
    let inv = a.inv().unwrap();
    assert_eq!(a.mul(inv), Goldilocks64Ext::one());
    assert!(Goldilocks64Ext::zero().inv().is_none());
    // exponentiation against repeated multiplication
    let mut acc = Goldilocks64Ext::one();
    for _ in 0..13 {
        acc = acc.mul(a);
    }
    assert_eq!(a.exp(13), acc);
}

#[test]
fn field_serialization_round_trip() {
    for _ in 0..50 {
        let f = Goldilocks64Ext::random();
        let mut buffer: Vec<u8> = Vec::new();
        f.serialize_into(&mut buffer);
        assert_eq!(buffer.len(), 16);
        let g = Goldilocks64Ext::deserialize_from(&buffer, 0).unwrap();
        assert_eq!(f, g);
    }
    // a non-canonical representative is rejected
    let bad = vec![0xFFu8; 16];
    assert!(Goldilocks64Ext::deserialize_from(&bad, 0).is_none());
    // a short buffer is rejected
    let short = vec![0u8; 15];
    assert!(Goldilocks64Ext::deserialize_from(&short, 0).is_none());
}

#[test]
fn batch_inverse_inverts_every_entry() {
    let mut v: Vec<Goldilocks64Ext> = Vec::new();
    for i in 0..32u32 {
        v.push(Goldilocks64Ext {
            c0: Goldilocks64::from_u32(i + 2),
            c1: Goldilocks64::from_u32(3 * i + 1),
        });
    }
    let original = v.clone();
    batch_inverse(&mut v);
    for i in 0..32 {
        assert_eq!(v[i].mul(original[i]), Goldilocks64Ext::one());
    }
}

#[test]
fn as_bytes_vec_layout() {
    let a = Goldilocks64Ext::from_u64(0x0102030405060708);
    let bytes = as_bytes_vec(&vec![a, Goldilocks64Ext::one()]);
    assert_eq!(bytes.len(), 32);
    assert_eq!(bytes[0], 0x08);
    assert_eq!(bytes[7], 0x01);
    assert_eq!(bytes[16], 1);
}

#[test]
fn dynamic_field_arithmetic() {
    let m = 7u64;
    let three = DynamicField::from_with_modulus(3, m);
    assert_eq!(three.get_modulus(), 7);
    assert_eq!(three.exp_with_modulus(5, m).v, 5);
    let inv = three.inv_with_modulus(m).unwrap();
    assert_eq!(inv.v, 5);
    assert_eq!(three.mul(inv).v, 1);
    assert!(DynamicField::gen_sig(m).inv_with_modulus(m).is_none());
    let a = DynamicField::from_with_modulus(6, m);
    let b = DynamicField::from_with_modulus(4, m);
    assert_eq!(a.add(b).v, 3);
    assert_eq!(b.sub(a).v, 5);
    assert_eq!(a.neg().v, 1);
    assert_eq!(DynamicField::one_with_modulus(m).v, 1);
}
