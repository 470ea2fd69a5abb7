use vstd::prelude::*;
use crate::names::{all_ascii, ascii_chars, decode_utf8};

verus! {

/// One past the largest variant (3 bits).
pub const VARIANT_LIMIT: u32 = 8;

/// One past the largest major number (7 bits).
pub const MAJOR_LIMIT: u32 = 128;

/// One past the largest minor number (10 bits).
pub const MINOR_LIMIT: u32 = 1024;

/// One past the largest patch number (12 bits).
pub const PATCH_LIMIT: u32 = 4096;

/// Why a version could not be packed.
#[derive(Debug, Clone, Copy, PartialEq, Eq, Structural)]
pub enum VersionError {
    /// One of the four fields does not fit its bit width.
    OutOfRange,
}

/// An API version packed into 32 bits: variant (3 bits), major (7 bits),
/// minor (10 bits) and patch (12 bits), most significant first.
#[derive(Debug, Clone, Copy, PartialEq, Eq, Structural, PartialOrd, Ord)]
pub struct Version(pub u32);

pub open spec fn fields_in_range(variant: int, major: int, minor: int, patch: int) -> bool {
    &&& 0 <= variant < 8
    &&& 0 <= major < 128
    &&& 0 <= minor < 1024
    &&& 0 <= patch < 4096
}

/// The packed word of four in-range fields.
pub open spec fn pack(variant: int, major: int, minor: int, patch: int) -> int {
    variant * 0x2000_0000 + major * 0x40_0000 + minor * 0x1000 + patch
}

pub open spec fn variant_of(w: u32) -> int {
    w as int / 0x2000_0000
}

pub open spec fn major_of(w: u32) -> int {
    (w as int / 0x40_0000) % 128
}

pub open spec fn minor_of(w: u32) -> int {
    (w as int / 0x1000) % 1024
}

pub open spec fn patch_of(w: u32) -> int {
    w as int % 0x1000
}

proof fn lemma_pack_bits(v: u32, ma: u32, mi: u32, p: u32)
    requires
        v < 8,
        ma < 128,
        mi < 1024,
        p < 4096,
    ensures
        (v << 29u32) | (ma << 22u32) | (mi << 12u32) | p == v * 0x2000_0000 + ma * 0x40_0000 + mi
            * 0x1000 + p,
{
    assert((v << 29u32) | (ma << 22u32) | (mi << 12u32) | p == v * 0x2000_0000 + ma * 0x40_0000 + mi
        * 0x1000 + p) by (bit_vector)
        requires
            v < 8,
            ma < 128,
            mi < 1024,
            p < 4096,
    ;
}

impl Version {
    /// Packs four fields; fails with `OutOfRange` when any field is too wide.
    pub fn new(variant: u8, major: u8, minor: u16, patch: u16) -> (r: Result<Version, VersionError>)
        ensures
            fields_in_range(variant as int, major as int, minor as int, patch as int) ==> r
                == Ok::<Version, VersionError>(
                Version(pack(variant as int, major as int, minor as int, patch as int) as u32),
            ),
            !fields_in_range(variant as int, major as int, minor as int, patch as int) ==> r
                == Err::<Version, VersionError>(VersionError::OutOfRange),
    {
        if (patch as u32) >= PATCH_LIMIT || (minor as u32) >= MINOR_LIMIT || (major as u32)
            >= MAJOR_LIMIT || (variant as u32) >= VARIANT_LIMIT {
            return Err(VersionError::OutOfRange);
        }
        let v = variant as u32;
        let ma = major as u32;
        let mi = minor as u32;
        let p = patch as u32;
        proof {
            lemma_pack_bits(v, ma, mi, p);
        }
        Ok(Version((v << 29u32) | (ma << 22u32) | (mi << 12u32) | p))
    }

    /// The top three bits.
    pub fn variant(self) -> (r: u8)
        ensures
            r == variant_of(self.0),
    {
        let w = self.0;
        assert((w >> 29u32) & 7 == w / 0x2000_0000) by (bit_vector);
        ((w >> 29u32) & 7) as u8
    }

    /// The seven bits below the variant.
    pub fn major(self) -> (r: u8)
        ensures
            r == major_of(self.0),
    {
        let w = self.0;
        assert((w >> 22u32) & 0x7f == (w / 0x40_0000) % 128) by (bit_vector);
        ((w >> 22u32) & 0x7f) as u8
    }

    /// The ten bits below the major number.
    pub fn minor(self) -> (r: u16)
        ensures
            r == minor_of(self.0),
    {
        let w = self.0;
        assert((w >> 12u32) & 0x3ff == (w / 0x1000) % 1024) by (bit_vector);
        ((w >> 12u32) & 0x3ff) as u16
    }

    /// The low twelve bits.
    pub fn patch(self) -> (r: u16)
        ensures
            r == patch_of(self.0),
    {
        let w = self.0;
        assert(w & 0xfff == w % 0x1000) by (bit_vector);
        (w & 0xfff) as u16
    }
}

/// The ASCII decimal digits of `n`, most significant first.
pub open spec fn decimal(n: nat) -> Seq<u8>
    decreases n,
{
    if n < 10 {
        seq![(48 + n) as u8]
    } else {
        decimal(n / 10).push((48 + n % 10) as u8)
    }
}

/// `variant.major.minor.patch` in decimal, as ASCII bytes.
pub open spec fn dotted(w: u32) -> Seq<u8> {
    decimal(variant_of(w) as nat) + seq![46u8] + decimal(major_of(w) as nat) + seq![46u8]
        + decimal(minor_of(w) as nat) + seq![46u8] + decimal(patch_of(w) as nat)
}

proof fn lemma_decimal_ascii(n: nat)
    ensures
        all_ascii(decimal(n)),
    decreases n,
{
    if n >= 10 {
        lemma_decimal_ascii(n / 10);
    }
}

fn push_decimal(out: &mut Vec<u8>, n: u16)
    ensures
        final(out)@ == old(out)@ + decimal(n as nat),
    decreases n,
{
    if n >= 10 {
        push_decimal(out, n / 10);
    }
    out.push(48 + (n % 10) as u8);
    proof {
        if n >= 10 {
            assert(final(out)@ =~= old(out)@ + decimal(n as nat));
        } else {
            assert(final(out)@ =~= old(out)@ + decimal(n as nat));
        }
    }
}

impl Version {
    /// The version as text, `variant.major.minor.patch` in decimal.
    pub fn text(self) -> (r: String)
        ensures
            r@ == ascii_chars(dotted(self.0)),
    {
        let mut bytes: Vec<u8> = Vec::new();
        push_decimal(&mut bytes, self.variant() as u16);
        bytes.push(46);
        push_decimal(&mut bytes, self.major() as u16);
        bytes.push(46);
        push_decimal(&mut bytes, self.minor());
        bytes.push(46);
        push_decimal(&mut bytes, self.patch());
        proof {
            assert(bytes@ =~= dotted(self.0));
            lemma_decimal_ascii(variant_of(self.0) as nat);
            lemma_decimal_ascii(major_of(self.0) as nat);
            lemma_decimal_ascii(minor_of(self.0) as nat);
            lemma_decimal_ascii(patch_of(self.0) as nat);
            assert(all_ascii(bytes@));
        }
        match decode_utf8(bytes) {
            Some(s) => s,
            None => String::new(),
        }
    }
}

/// Unpacking a packed version gives back the four fields it was packed from.
pub proof fn lemma_round_trip(variant: int, major: int, minor: int, patch: int)
    requires
        fields_in_range(variant, major, minor, patch),
    ensures
        0 <= pack(variant, major, minor, patch) <= u32::MAX,
        variant_of(pack(variant, major, minor, patch) as u32) == variant,
        major_of(pack(variant, major, minor, patch) as u32) == major,
        minor_of(pack(variant, major, minor, patch) as u32) == minor,
        patch_of(pack(variant, major, minor, patch) as u32) == patch,
{
    let w = pack(variant, major, minor, patch);
    assert(w / 0x2000_0000 == variant) by (nonlinear_arith)
        requires w == variant * 0x2000_0000 + major * 0x40_0000 + minor * 0x1000 + patch,
            fields_in_range(variant, major, minor, patch);
    assert(w / 0x40_0000 == variant * 128 + major) by (nonlinear_arith)
        requires w == variant * 0x2000_0000 + major * 0x40_0000 + minor * 0x1000 + patch,
            fields_in_range(variant, major, minor, patch);
    assert((variant * 128 + major) % 128 == major) by (nonlinear_arith)
        requires fields_in_range(variant, major, minor, patch);
    assert(w / 0x1000 == (variant * 128 + major) * 1024 + minor) by (nonlinear_arith)
        requires w == variant * 0x2000_0000 + major * 0x40_0000 + minor * 0x1000 + patch,
            fields_in_range(variant, major, minor, patch);
    assert(((variant * 128 + major) * 1024 + minor) % 1024 == minor) by (nonlinear_arith)
        requires fields_in_range(variant, major, minor, patch);
    assert(w % 0x1000 == patch) by (nonlinear_arith)
        requires w == variant * 0x2000_0000 + major * 0x40_0000 + minor * 0x1000 + patch,
            fields_in_range(variant, major, minor, patch);
}

} // verus!
