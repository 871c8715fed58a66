use immediate32::Immediate32;
use immediate32::Immediate32Concatable;
use immediate32::Immediate32DownCast;
use immediate32::Immediate32UpCast;

#[test]
fn new_keeps_any_pattern() {
    assert_eq!(Immediate32::new(0).to_u32(), 0);
    assert_eq!(Immediate32::new(0xDEADBEEF).to_u32(), 0xDEADBEEF);
    assert_eq!(Immediate32::new(u32::MAX).to_u32(), u32::MAX);
}

#[test]
fn zero_is_all_zero_at_every_width() {
    assert_eq!(Immediate32::<1>::zero().to_u32(), 0);
    assert_eq!(Immediate32::<17>::zero().to_u32(), 0);
    assert_eq!(Immediate32::<32>::zero().to_u32(), 0);
}

#[test]
fn default_is_zero() {
    let d: Immediate32<9> = Default::default();
    assert_eq!(d.to_u32(), 0);
    assert_eq!(d, Immediate32::<9>::zero());
}

#[test]
fn eq_u32_compares_raw_storage() {
    let a: Immediate32<4> = Immediate32::new(10).take_low();
    assert!(a.eq_u32(10));
    assert!(!a.eq_u32(11));
    assert!(Immediate32::<6>::zero().eq_u32(0));
}

#[test]
fn concat_then_split_nibbles() {
    // Two four-bit fields: 0b1010 over 0b0011 concatenate to 0b10100011.
    let a: Immediate32<4> = Immediate32::new(0b1010).take_low();
    let b: Immediate32<4> = Immediate32::new(0b0011).take_low();
    let c: Immediate32<8> = a.concat(b);
    assert_eq!(c.to_u32(), 163);
    let lo: Immediate32<4> = c.take_low();
    let hi: Immediate32<4> = c.take_high();
    assert_eq!(lo.to_u32(), 3);
    assert_eq!(hi.to_u32(), 10);
}

#[test]
fn full_word_downcasts() {
    let full = Immediate32::new(0xFFFFFFFF);
    let lo: Immediate32<8> = full.take_low();
    let hi: Immediate32<8> = full.take_high();
    assert_eq!(lo.to_u32(), 0xFF);
    assert_eq!(hi.to_u32(), 0xFF);
}

#[test]
fn take_low_masks_to_modulus() {
    let full = Immediate32::new(0xABCD1234);
    let lo: Immediate32<16> = full.take_low();
    assert_eq!(lo.to_u32(), 0xABCD1234 % (1 << 16));
    let one: Immediate32<1> = full.take_low();
    assert_eq!(one.to_u32(), 0);
    let tiny: Immediate32<3> = Immediate32::new(0b10100110).take_low();
    assert_eq!(tiny.to_u32(), 0b110);
}

#[test]
fn take_high_shifts_to_quotient() {
    let full = Immediate32::new(0xABCD1234);
    let hi: Immediate32<16> = full.take_high();
    assert_eq!(hi.to_u32(), 0xABCD1234 >> 16);
    let top: Immediate32<1> = full.take_high();
    assert_eq!(top.to_u32(), 1);
    let c: Immediate32<8> = Immediate32::new(163).take_low();
    let upper: Immediate32<3> = c.take_high();
    assert_eq!(upper.to_u32(), 163 >> 5);
}

#[test]
fn zero_extend_preserves_value() {
    let a: Immediate32<4> = Immediate32::new(10).take_low();
    let w: Immediate32<12> = a.zero_extend();
    assert_eq!(w.to_u32(), 10);
    let b: Immediate32<1> = Immediate32::new(1).take_low();
    let full: Immediate32<32> = b.zero_extend();
    assert_eq!(full.to_u32(), 1);
}

#[test]
fn split_recovers_wide_fields() {
    // A twelve-bit and a twenty-bit field survive a concatenation intact.
    let a: Immediate32<12> = Immediate32::new(0xABC).take_low();
    let b: Immediate32<20> = Immediate32::new(0x12345).take_low();
    let c: Immediate32<32> = a.concat(b);
    assert_eq!(c.to_u32(), 0xABC12345);
    let hi: Immediate32<12> = c.take_high();
    let lo: Immediate32<20> = c.take_low();
    assert_eq!(hi.to_u32(), 0xABC);
    assert_eq!(lo.to_u32(), 0x12345);
}

#[test]
fn extreme_width_concatenations() {
    let bit: Immediate32<1> = Immediate32::new(1).take_low();
    let rest: Immediate32<31> = Immediate32::new(0x55555555).take_low();
    let word: Immediate32<32> = bit.concat(rest);
    assert_eq!(word.to_u32(), 0x80000000 | (0x55555555 & 0x7FFFFFFF));
    let hi: Immediate32<16> = Immediate32::new(0xFFFF).take_low();
    let lo: Immediate32<16> = Immediate32::new(0xFFFF).take_low();
    let all: Immediate32<32> = hi.concat(lo);
    assert_eq!(all.to_u32(), 0xFFFFFFFF);
}

#[test]
fn zero_high_field_concatenates_to_zero_extension() {
    let b: Immediate32<4> = Immediate32::new(0b0011).take_low();
    let c: Immediate32<8> = Immediate32::<4>::zero().concat(b);
    let e: Immediate32<8> = b.zero_extend();
    assert_eq!(c, e);
    assert_eq!(c.to_u32(), 3);
}

#[test]
fn zero_low_field_concatenates_to_shift() {
    let a: Immediate32<4> = Immediate32::new(0b1010).take_low();
    let c: Immediate32<8> = a.concat(Immediate32::<4>::zero());
    assert_eq!(c.to_u32(), a.to_u32() << 4);
    assert_eq!(c.to_u32(), 160);
}

#[test]
fn one_bit_boolean_mapping() {
    let zero = Immediate32::<1>::zero();
    assert!(!zero.to_bool());
    assert!(zero.eq_bool(false));
    assert!(!zero.eq_bool(true));
    let one: Immediate32<1> = Immediate32::new(1).take_low();
    assert!(one.to_bool());
    assert!(one.eq_bool(true));
    assert!(!one.eq_bool(false));
}
