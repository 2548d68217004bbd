use svdgen::bits::{extract, insert, mask, smallest_width};
use svdgen::generic::{Readable, Reg, ResetValue, SizeType, ToBits, Variant, Writable, R, W};

struct Status;

impl Readable for Status {}

struct Control;

impl SizeType for Control {
    type Type = u32;
}

impl ResetValue for Control {
    fn reset_value() -> u32 {
        0
    }
}

impl Writable for Control {}

struct Clock;

impl SizeType for Clock {
    type Type = u32;
}

impl ResetValue for Clock {
    fn reset_value() -> u32 {
        0
    }
}

impl Readable for Clock {}

impl Writable for Clock {}

struct Wide;

impl Readable for Wide {}

impl Writable for Wide {}

struct Seeded;

impl SizeType for Seeded {
    type Type = u16;
}

impl ResetValue for Seeded {
    fn reset_value() -> u16 {
        0x1234
    }
}

impl Readable for Seeded {}

impl Writable for Seeded {}

#[derive(Clone, Copy, PartialEq, Debug)]
enum Mode {
    Off,
    On,
    Standby,
}

impl SizeType for Mode {
    type Type = u8;
}

impl ToBits for Mode {
    fn to_bits(&self) -> u8 {
        match self {
            Mode::Off => 0,
            Mode::On => 1,
            Mode::Standby => 2,
        }
    }
}

fn ready(bits: u32) -> R<bool> {
    R::new(extract(bits as u64, 3, 1) != 0)
}

#[test]
fn read_only_status_reports_ready_bit() {
    let set: Reg<u32, Status> = Reg::new(0b1000);
    assert!(ready(set.read().bits()).bit_is_set());
    assert!(ready(set.read().bits()).bit());
    assert!(!ready(set.read().bits()).bit_is_clear());
    let clear: Reg<u32, Status> = Reg::new(0xffff_fff7);
    assert!(!ready(clear.read().bits()).bit_is_set());
    assert!(ready(clear.read().bits()).bit_is_clear());
}

#[test]
fn write_only_control_takes_standby() {
    let reg: Reg<u32, Control> = Reg::new(0xdead_beef);
    let mut seed: u32 = 1;
    let mut left: u32 = 0;
    reg.write(|w| {
        seed = w.bits;
        let next = insert(w.bits as u64, 0, 2, Mode::Standby.to_bits() as u64) as u32;
        let w = w.bits(next);
        left = w.bits;
        w
    });
    assert_eq!(seed, 0);
    assert_eq!(left, 0x2);
}

#[test]
fn write_stores_what_the_writer_holds() {
    let reg: Reg<u32, Clock> = Reg::new(0xdead_beef);
    reg.write(|w| {
        let next = insert(w.bits as u64, 0, 2, Mode::Standby.to_bits() as u64) as u32;
        w.bits(next)
    });
    assert_eq!(reg.read().bits(), 0x2);
}

#[test]
fn modify_increments_divider() {
    let reg: Reg<u32, Clock> = Reg::new(0);
    let mut seen: u32 = 7;
    reg.modify(|r, w| {
        seen = r.bits();
        let div = extract(r.bits() as u64, 8, 4) + 1;
        let next = insert(w.bits as u64, 8, 4, div) as u32;
        w.bits(next)
    });
    assert_eq!(seen, 0);
    assert_eq!(reg.read().bits(), 0x100);
}

#[test]
fn modify_keeps_other_fields() {
    let reg: Reg<u32, Clock> = Reg::new(0xabcd_0f12);
    reg.modify(|r, w| {
        let div = extract(r.bits() as u64, 8, 4) + 1;
        let next = insert(w.bits as u64, 8, 4, div) as u32;
        w.bits(next)
    });
    assert_eq!(reg.read().bits(), 0xabcd_0012);
}

#[test]
fn reset_stores_reset_value() {
    let reg: Reg<u16, Seeded> = Reg::new(0);
    reg.reset();
    assert_eq!(reg.read().bits(), 0x1234);
}

#[test]
fn write_starts_from_reset_value() {
    let reg: Reg<u16, Seeded> = Reg::new(0);
    reg.write(|w| {
        let next = insert(w.bits as u64, 0, 4, 0xf) as u16;
        w.bits(next)
    });
    assert_eq!(reg.read().bits(), 0x123f);
}

#[test]
fn write_with_zero_starts_from_zero() {
    let reg: Reg<u16, Seeded> = Reg::new(0xffff);
    reg.write_with_zero(|w| {
        let next = insert(w.bits as u64, 0, 4, 0xf) as u16;
        w.bits(next)
    });
    assert_eq!(reg.read().bits(), 0x000f);
}

#[test]
fn reader_exposes_bits() {
    let r: R<u8> = R::new(0x5a);
    assert_eq!(r.bits(), 0x5a);
    let r: R<u64> = R::new(u64::MAX);
    assert_eq!(r.bits(), u64::MAX);
}

#[test]
fn writer_bits_overwrites_and_chains() {
    let mut w: W<u32> = W { bits: 1 };
    let out = w.bits(5).bits(9);
    assert_eq!(out.bits, 9);
    assert_eq!(w.bits, 9);
}

#[test]
fn variant_holds_value_or_raw_bits() {
    let known: Variant<Mode> = Variant::Val(Mode::On);
    let raw: Variant<Mode> = Variant::Res(3);
    assert!(known == Variant::Val(Mode::On));
    assert!(known != raw);
    assert!(raw == Variant::Res(3));
}

#[test]
fn every_variant_reads_back_after_write() {
    for v in [Mode::Off, Mode::On, Mode::Standby] {
        let bits = insert(0xffff_ffff, 4, 2, v.to_bits() as u64);
        assert_eq!(extract(bits, 4, 2), v.to_bits() as u64);
        assert_eq!(bits | 0x30, 0xffff_ffff);
    }
}

#[test]
fn mask_of_each_width() {
    assert_eq!(mask(0), 0);
    assert_eq!(mask(1), 1);
    assert_eq!(mask(4), 0xf);
    assert_eq!(mask(32), 0xffff_ffff);
    assert_eq!(mask(63), 0x7fff_ffff_ffff_ffff);
    assert_eq!(mask(64), u64::MAX);
}

#[test]
fn extract_shifts_then_masks() {
    assert_eq!(extract(0x0000_0f00, 8, 4), 0xf);
    assert_eq!(extract(0xffff_ffff_ffff_ffff, 60, 4), 0xf);
    assert_eq!(extract(0x1234_5678_9abc_def0, 0, 64), 0x1234_5678_9abc_def0);
    assert_eq!(extract(0b1000, 3, 1), 1);
    assert_eq!(extract(0b0111, 3, 1), 0);
}

#[test]
fn insert_clears_then_sets() {
    assert_eq!(insert(0, 8, 4, 1), 0x100);
    assert_eq!(insert(0xffff_ffff, 8, 4, 0), 0xffff_f0ff);
    assert_eq!(insert(0, 0, 2, 0xff), 0x3);
    assert_eq!(insert(0xaaaa, 0, 64, 0x5555), 0x5555);
}

#[test]
fn smallest_width_rounds_up() {
    assert_eq!(smallest_width(0), None);
    assert_eq!(smallest_width(1), Some(8));
    assert_eq!(smallest_width(8), Some(8));
    assert_eq!(smallest_width(9), Some(16));
    assert_eq!(smallest_width(17), Some(32));
    assert_eq!(smallest_width(33), Some(64));
    assert_eq!(smallest_width(64), Some(64));
    assert_eq!(smallest_width(65), None);
}

#[test]
fn written_bits_start_from_reset_value() {
    let bits = Reg::<u32, Control>::written(|w| {
        let next = insert(w.bits as u64, 0, 2, Mode::Standby.to_bits() as u64) as u32;
        w.bits(next)
    });
    assert_eq!(bits, 0x2);
    let bits = Reg::<u16, Seeded>::written(|w| w);
    assert_eq!(bits, 0x1234);
}

#[test]
fn written_from_zero_ignores_reset_value() {
    let bits = Reg::<u16, Seeded>::written_from_zero(|w| w);
    assert_eq!(bits, 0);
    let bits = Reg::<u16, Seeded>::written_from_zero(|w| {
        let next = w.bits | 0x80;
        w.bits(next)
    });
    assert_eq!(bits, 0x80);
}

#[test]
fn modified_bits_come_from_loaded_bits() {
    let bits = Reg::<u32, Clock>::modified(0, |r, w| {
        let div = extract(r.bits() as u64, 8, 4) + 1;
        let next = insert(w.bits as u64, 8, 4, div) as u32;
        w.bits(next)
    });
    assert_eq!(bits, 0x100);
    let bits = Reg::<u32, Clock>::modified(0xffff_ffff, |_, w| w);
    assert_eq!(bits, 0xffff_ffff);
}

#[test]
fn field_reader_and_writer_at_modify() {
    assert_eq!(Reg::<u64, Wide>::field_read(0x0f00, 8, 4), 0xf);
    assert_eq!(Reg::<u64, Wide>::field_read(0b1000, 3, 1), 1);
    assert_eq!(Reg::<u64, Wide>::field_modified(0, 8, 4, 1), 0x100);
    assert_eq!(Reg::<u64, Wide>::field_modified(0xffff_ffff, 8, 4, 0x12), 0xffff_f2ff);
    assert_eq!(Reg::<u64, Wide>::field_modified(5, 0, 64, 7), 7);
}
