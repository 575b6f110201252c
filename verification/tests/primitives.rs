//! The byte-cursor primitives: reads off a bounded source, writes into a
//! bounded target, and the big-endian helpers.

use postgread::decode::{BytesSource, Problem};
use postgread::encode::{BytesTarget, Problem as EncodeProblem};
use postgread::{u16_from_big_endian, u32_from_big_endian};

#[test]
fn left() {
    let bs = BytesSource::new(&[]);
    assert_eq!(0, bs.left());
    let mut bs = BytesSource::new(&[10, 11]);
    assert_eq!(2, bs.left());
    assert_eq!(2, bs.left());
    bs.take_u8().unwrap();
    assert_eq!(1, bs.left());
    assert_eq!(1, bs.left());
    bs.take_u8().unwrap();
    assert_eq!(0, bs.left());
}

#[test]
fn take_u8() {
    let mut bs = BytesSource::new(&[]);
    assert_eq!(Err(Problem::NeedMoreBytes(1)), bs.take_u8());
    let mut bs = BytesSource::new(&[10, 11]);
    assert_eq!(Ok(10), bs.take_u8());
    assert_eq!(Ok(11), bs.take_u8());
    assert_eq!(Err(Problem::NeedMoreBytes(1)), bs.take_u8());
    assert_eq!(Err(Problem::NeedMoreBytes(1)), bs.take_u8());
}

#[test]
fn take_u16() {
    let mut bs = BytesSource::new(&[]);
    assert_eq!(Err(Problem::NeedMoreBytes(2)), bs.take_u16());
    let mut bs = BytesSource::new(&[0xa1, 0xb2, 0xc3, 0xd4, 0xe5]);
    assert_eq!(Ok(0xa1b2), bs.take_u16());
    assert_eq!(Ok(0xc3d4), bs.take_u16());
    assert_eq!(Err(Problem::NeedMoreBytes(1)), bs.take_u16());
    assert_eq!(Err(Problem::NeedMoreBytes(2)), bs.take_u16());
}

#[test]
fn take_u32() {
    let mut bs = BytesSource::new(&[]);
    assert_eq!(Err(Problem::NeedMoreBytes(4)), bs.take_u32());
    let mut bs = BytesSource::new(&[0xa1, 0xb2, 0xc3, 0xd4, 0xe5, 0xf6]);
    assert_eq!(Ok(0xa1b2c3d4), bs.take_u32());
    assert_eq!(Err(Problem::NeedMoreBytes(2)), bs.take_u32());
    assert_eq!(Err(Problem::NeedMoreBytes(4)), bs.take_u32());
}

#[test]
fn take_slice() {
    let mut res = vec![0; 3];
    let mut bs = BytesSource::new(&[]);
    assert_eq!(Err(Problem::NeedMoreBytes(3)), bs.take_slice(&mut res));
    let mut bs = BytesSource::new(&[0xa1, 0xb2, 0xc3, 0xd4, 0xe5]);
    assert_eq!(Ok(()), bs.take_slice(&mut res));
    assert_eq!(vec![0xa1, 0xb2, 0xc3], res);
    assert_eq!(Err(Problem::NeedMoreBytes(1)), bs.take_slice(&mut res));
    assert_eq!(Err(Problem::NeedMoreBytes(3)), bs.take_vec(3));
}

#[test]
fn take_vec() {
    let mut bs = BytesSource::new(&[]);
    assert_eq!(Err(Problem::NeedMoreBytes(3)), bs.take_vec(3));
    let mut bs = BytesSource::new(&[0xa1, 0xb2, 0xc3, 0xd4, 0xe5]);
    assert_eq!(Ok(vec![0xa1, 0xb2, 0xc3]), bs.take_vec(3));
    assert_eq!(Err(Problem::NeedMoreBytes(1)), bs.take_vec(3));
    assert_eq!(Err(Problem::NeedMoreBytes(3)), bs.take_vec(3));
}

#[test]
fn take_null_terminated() {
    let mut bs = BytesSource::new(&[]);
    assert_eq!(Err(Problem::NoNullByte), bs.take_until_null());
    let mut bs = BytesSource::new(&[10, 11, 12, 0, 20, 21, 0, 30]);
    assert_eq!(Ok(vec![10, 11, 12]), bs.take_until_null());
    assert_eq!(Ok(vec![20, 21]), bs.take_until_null());
    assert_eq!(1, bs.left());
    assert_eq!(Err(Problem::NoNullByte), bs.take_until_null());
    assert_eq!(0, bs.left());
}

#[test]
fn encode_left() {
    let bt = BytesTarget::new(vec![]);
    assert_eq!(0, bt.left());
    let mut bt = BytesTarget::new(vec![0, 0]);
    assert_eq!(2, bt.left());
    assert_eq!(2, bt.left());
    bt.put_u8(0).unwrap();
    assert_eq!(1, bt.left());
    assert_eq!(1, bt.left());
    bt.put_u8(0).unwrap();
    assert_eq!(0, bt.left());
}

#[test]
fn put_u8() {
    let mut bt = BytesTarget::new(vec![]);
    assert_eq!(Err(EncodeProblem::OutOfSpace(1)), bt.put_u8(0xa1));
    let mut bs = BytesTarget::new(vec![0; 2]);
    assert_eq!(Ok(()), bs.put_u8(0xa1));
    assert_eq!(Ok(()), bs.put_u8(0xb2));
    assert_eq!(Err(EncodeProblem::OutOfSpace(1)), bs.put_u8(0xc3));
    assert_eq!(Err(EncodeProblem::OutOfSpace(1)), bs.put_u8(0xd4));
    assert_eq!(vec![0xa1, 0xb2], bs.into_vec());
}

#[test]
fn put_u32() {
    let mut bt = BytesTarget::new(vec![]);
    assert_eq!(Err(EncodeProblem::OutOfSpace(4)), bt.put_u32(0xa1b2c3d4));
    let mut bs = BytesTarget::new(vec![0; 6]);
    assert_eq!(Ok(()), bs.put_u32(0xa1b2c3d4));
    assert_eq!(Err(EncodeProblem::OutOfSpace(2)), bs.put_u32(0xe5f6a7b8));
    assert_eq!(Err(EncodeProblem::OutOfSpace(4)), bs.put_u32(0xc9d0e1f2));
    assert_eq!(vec![0xa1, 0xb2, 0xc3, 0xd4, 0, 0], bs.into_vec());
}

#[test]
fn u16_from_be() {
    assert_eq!(0x0079, u16_from_big_endian(&[0, 0x79]));
    assert_eq!(0x7900, u16_from_big_endian(&[0x79, 0]));
}

#[test]
fn u32_from_be() {
    assert_eq!(0x00000079, u32_from_big_endian(&[0, 0, 0, 0x79]));
    assert_eq!(0x00007900, u32_from_big_endian(&[0, 0, 0x79, 0]));
    assert_eq!(0x00790000, u32_from_big_endian(&[0, 0x79, 0, 0]));
    assert_eq!(0x79000000, u32_from_big_endian(&[0x79, 0, 0, 0]));
}
