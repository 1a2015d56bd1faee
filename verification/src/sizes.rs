//! The tagged quantity and its expansion into the four decimal units.
//!
//! Units are decimal: a kilobyte is 1000 bytes, a megabyte 1000 kilobytes and
//! a gigabyte 1000 megabytes. Going to a larger unit divides and truncates;
//! going to a smaller unit multiplies, and a product that does not fit in
//! `u64` saturates at `u64::MAX`.

use vstd::prelude::*;

verus! {

/// Bytes in a kilobyte.
pub const KILO: u64 = 1_000;

/// Bytes in a megabyte.
pub const MEGA: u64 = 1_000_000;

/// Bytes in a gigabyte.
pub const GIGA: u64 = 1_000_000_000;

/// A magnitude together with the unit it is expressed in.
#[derive(Clone, Copy, Debug, PartialEq, Eq, Structural)]
pub enum FileSize {
    Bytes(u64),
    Kilobytes(u64),
    Megabytes(u64),
    Gigabytes(u64),
}

/// One size expressed in each of the four units.
#[derive(Clone, Copy, Debug, PartialEq, Eq, Structural)]
pub struct Sizes {
    pub bytes: u64,
    pub kilobytes: u64,
    pub megabytes: u64,
    pub gigabytes: u64,
}

/// `n` where it fits in `u64`, otherwise `u64::MAX`.
pub open spec fn saturated(n: nat) -> u64 {
    if n > u64::MAX {
        u64::MAX
    } else {
        n as u64
    }
}

impl FileSize {
    /// The magnitude, in the quantity's own unit.
    pub open spec fn magnitude(self) -> u64 {
        match self {
            FileSize::Bytes(b) => b,
            FileSize::Kilobytes(k) => k,
            FileSize::Megabytes(m) => m,
            FileSize::Gigabytes(g) => g,
        }
    }

    /// How many bytes one of the quantity's own units holds.
    pub open spec fn unit_bytes(self) -> nat {
        match self {
            FileSize::Bytes(_) => 1,
            FileSize::Kilobytes(_) => KILO as nat,
            FileSize::Megabytes(_) => MEGA as nat,
            FileSize::Gigabytes(_) => GIGA as nat,
        }
    }

    /// The exact number of bytes the quantity stands for; it is not bounded
    /// by `u64::MAX`.
    pub open spec fn byte_count(self) -> nat {
        self.magnitude() as nat * self.unit_bytes()
    }

    /// The quantity in all four units.
    pub open spec fn sizes(self) -> Sizes {
        Sizes::of_byte_count(self.byte_count())
    }
}

impl Sizes {
    /// The expansion of an exact byte count: in each unit the truncated
    /// quotient, saturated to `u64`.
    pub open spec fn of_byte_count(n: nat) -> Sizes {
        Sizes {
            bytes: saturated(n),
            kilobytes: saturated(n / KILO as nat),
            megabytes: saturated(n / MEGA as nat),
            gigabytes: saturated(n / GIGA as nat),
        }
    }

    /// The field that holds the size in the unit of `file_size`.
    pub open spec fn in_unit_of(self, file_size: FileSize) -> u64 {
        match file_size {
            FileSize::Bytes(_) => self.bytes,
            FileSize::Kilobytes(_) => self.kilobytes,
            FileSize::Megabytes(_) => self.megabytes,
            FileSize::Gigabytes(_) => self.gigabytes,
        }
    }

    /// Expands a quantity into all four units.
    ///
    /// The field of the quantity's own unit holds the magnitude unchanged.
    pub fn from_file_size(file_size: FileSize) -> (sizes: Self)
        ensures
            sizes == file_size.sizes(),
            sizes.in_unit_of(file_size) == file_size.magnitude(),
    {
        match file_size {
            FileSize::Bytes(b) => Self::from_bytes(b),
            FileSize::Kilobytes(kb) => Self::from_kilobytes(kb),
            FileSize::Megabytes(mb) => Self::from_megabytes(mb),
            FileSize::Gigabytes(gb) => Self::from_gigabytes(gb),
        }
    }

    /// Expands a number of bytes; the larger units are truncated quotients.
    pub fn from_bytes(bytes: u64) -> (sizes: Self)
        ensures
            sizes.bytes == bytes,
            sizes.kilobytes == bytes / 1_000,
            sizes.megabytes == bytes / 1_000_000,
            sizes.gigabytes == bytes / 1_000_000_000,
            sizes == Sizes::of_byte_count(bytes as nat),
    {
        Self {
            bytes,
            kilobytes: bytes / KILO,
            megabytes: bytes / MEGA,
            gigabytes: bytes / GIGA,
        }
    }

    /// Expands a number of kilobytes.
    pub fn from_kilobytes(kilobytes: u64) -> (sizes: Self)
        ensures
            sizes.bytes == saturated(kilobytes as nat * 1_000),
            sizes.kilobytes == kilobytes,
            sizes.megabytes == kilobytes / 1_000,
            sizes.gigabytes == kilobytes / 1_000_000,
            sizes == Sizes::of_byte_count(kilobytes as nat * 1_000),
    {
        let bytes: u64 = scale_up(kilobytes, KILO);
        Self { bytes, kilobytes, megabytes: kilobytes / KILO, gigabytes: kilobytes / MEGA }
    }

    /// Expands a number of megabytes.
    pub fn from_megabytes(megabytes: u64) -> (sizes: Self)
        ensures
            sizes.bytes == saturated(megabytes as nat * 1_000_000),
            sizes.kilobytes == saturated(megabytes as nat * 1_000),
            sizes.megabytes == megabytes,
            sizes.gigabytes == megabytes / 1_000,
            sizes == Sizes::of_byte_count(megabytes as nat * 1_000_000),
    {
        let kilobytes: u64 = scale_up(megabytes, KILO);
        let bytes: u64 = scale_up(kilobytes, KILO);
        Self { bytes, kilobytes, megabytes, gigabytes: megabytes / KILO }
    }

    /// Expands a number of gigabytes.
    pub fn from_gigabytes(gigabytes: u64) -> (sizes: Self)
        ensures
            sizes.bytes == saturated(gigabytes as nat * 1_000_000_000),
            sizes.kilobytes == saturated(gigabytes as nat * 1_000_000),
            sizes.megabytes == saturated(gigabytes as nat * 1_000),
            sizes.gigabytes == gigabytes,
            sizes == Sizes::of_byte_count(gigabytes as nat * 1_000_000_000),
    {
        let megabytes: u64 = scale_up(gigabytes, KILO);
        let kilobytes: u64 = scale_up(megabytes, KILO);
        let bytes: u64 = scale_up(kilobytes, KILO);
        Self { bytes, kilobytes, megabytes, gigabytes }
    }
}

/// The product of `value` and `factor`, saturated to `u64`.
fn scale_up(value: u64, factor: u64) -> (scaled: u64)
    ensures
        scaled == saturated(value as nat * factor as nat),
{
    match value.checked_mul(factor) {
        Some(product) => product,
        None => u64::MAX,
    }
}

/// From kilobytes to bytes and back: dividing the bytes of `kilobytes`
/// kilobytes by 1000 never gives more than `kilobytes`, and gives exactly
/// `kilobytes` where the bytes are a multiple of 1000, which they are unless
/// the product saturated.
pub proof fn lemma_kilobytes_round_trip(kilobytes: u64)
    ensures
        ({
            let bytes = FileSize::Kilobytes(kilobytes).sizes().bytes;
            let back = FileSize::Bytes(bytes).sizes().kilobytes;
            &&& back <= kilobytes
            &&& back == kilobytes <==> bytes % 1_000 == 0
            &&& back == kilobytes <==> kilobytes * 1_000 <= u64::MAX
        }),
{
    let exact: nat = kilobytes as nat * 1_000;
    if exact <= u64::MAX {
        assert(saturated(exact) % 1_000 == 0 && saturated(exact) / 1_000 == kilobytes);
    } else {
        assert(u64::MAX % 1_000 != 0 && u64::MAX / 1_000 < kilobytes);
    }
}

} // verus!
