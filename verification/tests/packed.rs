use edtf::level_1::YearDigits;
use edtf::level_1::packed::{Certainty, DMFlags, DMMask, PackedU8, PackedYear, YearFlags, YearMask};
use Certainty::{Approximate, ApproximateUncertain, Certain, Uncertain};
use core::mem::size_of;

#[test]
fn test_packed_year() {
    fn roundtrip(a: i32, b: YearFlags) {
        let (aa, bb) = PackedYear::pack(a, b).expect("should be in range").unpack();
        assert_eq!((a, b), (aa, bb));
    }
    roundtrip(1995, YearFlags::new(Certain, YearMask::Unmasked));
    roundtrip(-1000, YearFlags::new(Uncertain, YearMask::Unmasked));
    roundtrip(-1000, YearFlags::new(ApproximateUncertain, YearMask::Unmasked));
    roundtrip(0, YearFlags::new(ApproximateUncertain, YearMask::Unmasked));
    roundtrip(-1, YearFlags::new(ApproximateUncertain, YearMask::Unmasked));
}

#[test]
fn test_packed_month_day() {
    fn roundtrip(a: u8, b: DMFlags) {
        let (aa, bb) = PackedU8::pack(a, b).expect("should be in range").unpack();
        assert_eq!((a, b), (aa, bb));
    }
    roundtrip(1, DMFlags::new(Certain, DMMask::Unmasked));
    roundtrip(12, DMFlags::new(Certain, DMMask::Unspecified));
    // a day fits in a PackedU8, since 31 == u8::MAX >> 3.
    roundtrip(31, DMFlags::new(Certain, DMMask::Unspecified));
}

#[test]
fn test_packed_size() {
    assert_eq!(size_of::<PackedYear>(), 4);
    assert_eq!(size_of::<(PackedYear, PackedU8, PackedU8)>(), 8);
}

#[test]
fn packed_ranges() {
    assert!(PackedYear::pack(134217726, YearFlags::new(Certain, YearMask::TwoDigits)).is_some());
    assert!(PackedYear::pack(134217727, YearFlags::new(Certain, YearMask::TwoDigits)).is_none());
    assert!(PackedYear::pack(134217728, YearFlags::new(Certain, YearMask::Unmasked)).is_none());
    assert!(PackedYear::pack(-134217729, YearFlags::new(Certain, YearMask::Unmasked)).is_none());
    assert!(PackedU8::pack(0, DMFlags::new(Certain, DMMask::Unmasked)).is_none());
    assert!(PackedU8::pack(32, DMFlags::new(Certain, DMMask::Unmasked)).is_none());
    let (y, f) = PackedYear::pack(-134217728, YearFlags::new(Approximate, YearMask::OneDigit))
        .unwrap()
        .unpack();
    assert_eq!((y, f), (-134217728, YearFlags::new(Approximate, YearMask::OneDigit)));
    assert!(DMFlags::new(Uncertain, DMMask::Unspecified).is_masked());
    assert!(!DMFlags::new(Uncertain, DMMask::Unmasked).is_masked());
}

#[test]
fn year_digits_and_masks_correspond() {
    assert_eq!(YearDigits::NoX.to_mask(), YearMask::Unmasked);
    assert_eq!(YearDigits::X.to_mask(), YearMask::OneDigit);
    assert_eq!(YearDigits::XX.to_mask(), YearMask::TwoDigits);
    for d in [YearDigits::NoX, YearDigits::X, YearDigits::XX].iter() {
        assert_eq!(YearDigits::from_mask(d.to_mask()), *d);
    }
}
