//! Compact storage for the parts of a level 1 date: a year with its flags in one `i32`, and a
//! month or day with its flags in one byte.

use vstd::prelude::*;

verus! {

/// Specifies the number of Xs in `2019`/`201X`/`20XX`.
#[derive(Debug, Copy, Clone, PartialEq, Eq, PartialOrd, Ord, Hash, Structural)]
pub enum YearMask {
    /// `2019`
    Unmasked,
    /// `201X`
    OneDigit,
    /// `20XX`
    TwoDigits,
}

/// Whether a date is uncertain and in what way: the `?`, `~` and `%` modifiers.
#[derive(Debug, Copy, Clone, PartialEq, Eq, PartialOrd, Ord, Hash, Structural)]
pub enum Certainty {
    /// no modifier
    Certain,
    /// `?`
    Uncertain,
    /// `~`
    Approximate,
    /// `%`
    ApproximateUncertain,
}

/// Whether a month or day is written `XX`.
#[derive(Debug, Copy, Clone, PartialEq, Eq, PartialOrd, Ord, Hash, Structural)]
pub enum DMMask {
    /// `2019-05`
    Unmasked,
    /// `2019-XX`
    Unspecified,
}

/// The flags stored with a year.
#[derive(Debug, Copy, Clone, PartialEq, Eq, Hash, Structural)]
pub struct YearFlags {
    pub certainty: Certainty,
    pub mask: YearMask,
}

/// The flags stored with a month or day.
#[derive(Debug, Copy, Clone, PartialEq, Eq, Hash, Structural)]
pub struct DMFlags {
    pub certainty: Certainty,
    pub mask: DMMask,
}

/// Two bits for a certainty.
pub open spec fn certainty_bits(c: Certainty) -> int {
    match c {
        Certainty::Certain => 0,
        Certainty::Uncertain => 1,
        Certainty::Approximate => 2,
        Certainty::ApproximateUncertain => 3,
    }
}

/// The certainty of two bits.
pub open spec fn certainty_of(bits: int) -> Certainty {
    if bits == 0 {
        Certainty::Certain
    } else if bits == 1 {
        Certainty::Uncertain
    } else if bits == 2 {
        Certainty::Approximate
    } else {
        Certainty::ApproximateUncertain
    }
}

/// Two bits for a year mask.
pub open spec fn year_mask_bits(m: YearMask) -> int {
    match m {
        YearMask::Unmasked => 0,
        YearMask::OneDigit => 1,
        YearMask::TwoDigits => 2,
    }
}

/// The year mask of two bits (3 is not used).
pub open spec fn year_mask_of(bits: int) -> YearMask {
    if bits == 0 {
        YearMask::Unmasked
    } else if bits == 1 {
        YearMask::OneDigit
    } else {
        YearMask::TwoDigits
    }
}

/// Four bits for a year's flags: certainty low, mask above.
pub open spec fn year_flags_bits(f: YearFlags) -> int {
    certainty_bits(f.certainty) + 4 * year_mask_bits(f.mask)
}

/// The year flags of four bits.
pub open spec fn year_flags_of(bits: int) -> YearFlags {
    YearFlags { certainty: certainty_of(bits % 4), mask: year_mask_of(bits / 4) }
}

/// Three bits for a month's or day's flags: certainty low, mask above.
pub open spec fn dm_flags_bits(f: DMFlags) -> int {
    certainty_bits(f.certainty) + 4 * (if f.mask == DMMask::Unspecified { 1int } else { 0 })
}

/// The month or day flags of three bits.
pub open spec fn dm_flags_of(bits: int) -> DMFlags {
    DMFlags {
        certainty: certainty_of(bits % 4),
        mask: if bits / 4 == 1 { DMMask::Unspecified } else { DMMask::Unmasked },
    }
}

/// The years that fit beside four flag bits in an `i32`: `i32::MIN >> 4 .. i32::MAX >> 4`,
/// the upper end excluded.
pub open spec fn year_range_ok(y: int) -> bool {
    -134217728 <= y < 134217727
}

pub proof fn lemma_year_flags_roundtrip(f: YearFlags)
    ensures
        year_flags_of(year_flags_bits(f)) == f,
        0 <= year_flags_bits(f) < 12,
{
}

pub proof fn lemma_dm_flags_roundtrip(f: DMFlags)
    ensures
        dm_flags_of(dm_flags_bits(f)) == f,
        0 <= dm_flags_bits(f) < 8,
{
}

proof fn lemma_year_pack_bits(y: i32, b: i32)
    requires
        -134217728 <= y <= 134217727,
        0 <= b < 16,
    ensures
        ((y * 16 + b) as i32) >> 4 == y,
        ((y * 16 + b) as i32) & 15 == b,
{
    assert(((y * 16 + b) as i32) >> 4 == y && ((y * 16 + b) as i32) & 15 == b) by (bit_vector)
        requires
            -134217728 <= y <= 134217727,
            0 <= b < 16,
    ;
}

proof fn lemma_dm_pack_bits(v: u8, b: u8)
    requires
        v < 32,
        b < 8,
    ensures
        ((v * 8 + b) as u8) >> 3 == v,
        ((v * 8 + b) as u8) & 7 == b,
{
    assert(((v * 8 + b) as u8) >> 3 == v && ((v * 8 + b) as u8) & 7 == b) by (bit_vector)
        requires
            v < 32,
            b < 8,
    ;
}

/// A year and its flags in one `i32`: the year shifted left by four, the flags below.
#[derive(Debug, Copy, Clone, PartialEq, Eq, PartialOrd, Ord, Hash, Structural)]
pub struct PackedYear(pub(crate) i32);

impl PackedYear {
    /// The stored year.
    pub open(crate) spec fn spec_year(self) -> int {
        (self.0 >> 4) as int
    }

    /// The stored flags.
    pub open(crate) spec fn spec_flags(self) -> YearFlags {
        year_flags_of((self.0 & 15) as int)
    }

    /// The packed form of a year in range and its flags.
    pub open(crate) spec fn spec_pack(year: int, flags: YearFlags) -> PackedYear {
        PackedYear((year * 16 + year_flags_bits(flags)) as i32)
    }

    /// Whether a year fits: `i32::MIN >> 4 .. i32::MAX >> 4`, the upper end excluded.
    pub fn check_range_ok(inner: i32) -> (r: bool)
        ensures
            r == year_range_ok(inner as int),
    {
        -134217728 <= inner && inner < 134217727
    }

    /// Packs a year with its flags, or None when the year does not fit.
    pub fn pack(inner: i32, addendum: YearFlags) -> (r: Option<Self>)
        ensures
            r is Some <==> year_range_ok(inner as int),
            r matches Some(p) ==> p == Self::spec_pack(inner as int, addendum) && p.spec_year()
                == inner && p.spec_flags() == addendum,
    {
        if !Self::check_range_ok(inner) {
            return None;
        }
        Some(Self::pack_unchecked(inner, addendum))
    }

    /// Packs a year that fits with its flags.
    pub fn pack_unchecked(inner: i32, addendum: YearFlags) -> (r: Self)
        requires
            year_range_ok(inner as int),
        ensures
            r == Self::spec_pack(inner as int, addendum),
            r.spec_year() == inner,
            r.spec_flags() == addendum,
    {
        let c: i32 = match addendum.certainty {
            Certainty::Certain => 0,
            Certainty::Uncertain => 1,
            Certainty::Approximate => 2,
            Certainty::ApproximateUncertain => 3,
        };
        let m: i32 = match addendum.mask {
            YearMask::Unmasked => 0,
            YearMask::OneDigit => 1,
            YearMask::TwoDigits => 2,
        };
        let b = c + 4 * m;
        proof {
            lemma_year_pack_bits(inner, b);
            lemma_year_flags_roundtrip(addendum);
        }
        PackedYear(inner * 16 + b)
    }

    /// Unpacks the year and its flags.
    pub fn unpack(&self) -> (r: (i32, YearFlags))
        ensures
            r.0 == self.spec_year(),
            r.1 == self.spec_flags(),
    {
        let raw = self.0;
        let y = raw >> 4;
        let b = raw & 15;
        proof {
            assert(0 <= (raw & 15) < 16) by (bit_vector);
        }
        let certainty = if b % 4 == 0 {
            Certainty::Certain
        } else if b % 4 == 1 {
            Certainty::Uncertain
        } else if b % 4 == 2 {
            Certainty::Approximate
        } else {
            Certainty::ApproximateUncertain
        };
        let mask = if b / 4 == 0 {
            YearMask::Unmasked
        } else if b / 4 == 1 {
            YearMask::OneDigit
        } else {
            YearMask::TwoDigits
        };
        (y, YearFlags { certainty, mask })
    }
}

/// A month or day (1..=31) and its flags in one byte: the value shifted left by three, the
/// flags below. Never zero.
#[derive(Debug, Copy, Clone, PartialEq, Eq, PartialOrd, Ord, Hash, Structural)]
pub struct PackedU8(pub(crate) u8);

impl PackedU8 {
    /// The stored value.
    pub open(crate) spec fn spec_value(self) -> int {
        (self.0 >> 3) as int
    }

    /// The stored flags.
    pub open(crate) spec fn spec_flags(self) -> DMFlags {
        dm_flags_of((self.0 & 7) as int)
    }

    /// The packed form of a value 1..=31 and its flags.
    pub open(crate) spec fn spec_pack(v: int, flags: DMFlags) -> PackedU8 {
        PackedU8((v * 8 + dm_flags_bits(flags)) as u8)
    }

    /// The stored value is 1..=31.
    #[verifier::type_invariant]
    pub open(crate) spec fn wf(self) -> bool {
        self.0 >= 8
    }

    /// Whether a value fits: 1..=31.
    pub fn check_range_ok(inner: u8) -> (r: bool)
        ensures
            r == (1 <= inner <= 31),
    {
        1 <= inner && inner <= 31
    }

    /// Packs a value with its flags, or None when the value is not 1..=31.
    pub fn pack(inner: u8, addendum: DMFlags) -> (r: Option<Self>)
        ensures
            r is Some <==> 1 <= inner <= 31,
            r matches Some(p) ==> p == Self::spec_pack(inner as int, addendum) && p.spec_value()
                == inner && p.spec_flags() == addendum,
    {
        if !Self::check_range_ok(inner) {
            return None;
        }
        let c: u8 = match addendum.certainty {
            Certainty::Certain => 0,
            Certainty::Uncertain => 1,
            Certainty::Approximate => 2,
            Certainty::ApproximateUncertain => 3,
        };
        let m: u8 = match addendum.mask {
            DMMask::Unmasked => 0,
            DMMask::Unspecified => 1,
        };
        let b = c + 4 * m;
        proof {
            lemma_dm_pack_bits(inner, b);
            lemma_dm_flags_roundtrip(addendum);
        }
        Some(PackedU8(inner * 8 + b))
    }

    /// Unpacks the value and its flags.
    pub fn unpack(&self) -> (r: (u8, DMFlags))
        ensures
            r.0 == self.spec_value(),
            r.1 == self.spec_flags(),
            1 <= r.0 <= 31,
    {
        proof {
            use_type_invariant(self);
            let x = self.0;
            assert(x >= 8 ==> (x >> 3) >= 1 && (x >> 3) <= 31 && (x & 7) < 8) by (bit_vector);
        }
        let v = self.0 >> 3;
        let b = self.0 & 7;
        let certainty = if b % 4 == 0 {
            Certainty::Certain
        } else if b % 4 == 1 {
            Certainty::Uncertain
        } else if b % 4 == 2 {
            Certainty::Approximate
        } else {
            Certainty::ApproximateUncertain
        };
        let mask = if b / 4 == 1 {
            DMMask::Unspecified
        } else {
            DMMask::Unmasked
        };
        (v, DMFlags { certainty, mask })
    }
}

impl YearFlags {
    /// Flags from a certainty and a mask.
    pub fn new(certainty: Certainty, mask: YearMask) -> (r: Self)
        ensures
            r.certainty == certainty && r.mask == mask,
    {
        YearFlags { certainty, mask }
    }
}

impl DMFlags {
    /// Flags from a certainty and a mask.
    pub fn new(certainty: Certainty, mask: DMMask) -> (r: Self)
        ensures
            r.certainty == certainty && r.mask == mask,
    {
        DMFlags { certainty, mask }
    }

    /// Whether the component is written `XX`.
    pub fn is_masked(&self) -> (r: bool)
        ensures
            r == (self.mask == DMMask::Unspecified),
    {
        match self.mask {
            DMMask::Unmasked => false,
            DMMask::Unspecified => true,
        }
    }
}

/// Packing a year in range and unpacking it gives back the year and its flags.
pub proof fn lemma_packed_year_roundtrip(year: i32, flags: YearFlags)
    requires
        year_range_ok(year as int),
    ensures
        PackedYear::spec_pack(year as int, flags).spec_year() == year,
        PackedYear::spec_pack(year as int, flags).spec_flags() == flags,
{
    lemma_year_flags_roundtrip(flags);
    lemma_year_pack_bits(year, year_flags_bits(flags) as i32);
}

/// Packing a month or day 1..=31 and unpacking it gives back the value and its flags.
pub proof fn lemma_packed_u8_roundtrip(v: u8, flags: DMFlags)
    requires
        1 <= v <= 31,
    ensures
        PackedU8::spec_pack(v as int, flags).spec_value() == v,
        PackedU8::spec_pack(v as int, flags).spec_flags() == flags,
        PackedU8::spec_pack(v as int, flags).wf(),
{
    lemma_dm_flags_roundtrip(flags);
    lemma_dm_pack_bits(v, dm_flags_bits(flags) as u8);
}

} // verus!
