pub mod built_in_trait;
pub mod parse;
pub mod symbol;

use vstd::prelude::*;

verus! {

/// A unit of bits or bytes: a base unit, or one of its decimal or binary
/// multiples up to yotta and yobi.
#[derive(Clone, Copy, Debug, PartialEq, Eq, Structural, Hash)]
pub enum Unit {
    /// One bit.
    Bit,
    /// One byte: 8 bits.
    B,
    /// 1 Kb = 10<sup>3</sup> bits.
    Kbit,
    /// 1 Kib = 2<sup>10</sup> bits.
    Kibit,
    /// 1 KB = 10<sup>3</sup> bytes.
    KB,
    /// 1 KiB = 2<sup>10</sup> bytes.
    KiB,
    /// 1 Mb = 10<sup>6</sup> bits.
    Mbit,
    /// 1 Mib = 2<sup>20</sup> bits.
    Mibit,
    /// 1 MB = 10<sup>6</sup> bytes.
    MB,
    /// 1 MiB = 2<sup>20</sup> bytes.
    MiB,
    /// 1 Gb = 10<sup>9</sup> bits.
    Gbit,
    /// 1 Gib = 2<sup>30</sup> bits.
    Gibit,
    /// 1 GB = 10<sup>9</sup> bytes.
    GB,
    /// 1 GiB = 2<sup>30</sup> bytes.
    GiB,
    /// 1 Tb = 10<sup>12</sup> bits.
    Tbit,
    /// 1 Tib = 2<sup>40</sup> bits.
    Tibit,
    /// 1 TB = 10<sup>12</sup> bytes.
    TB,
    /// 1 TiB = 2<sup>40</sup> bytes.
    TiB,
    /// 1 Pb = 10<sup>15</sup> bits.
    Pbit,
    /// 1 Pib = 2<sup>50</sup> bits.
    Pibit,
    /// 1 PB = 10<sup>15</sup> bytes.
    PB,
    /// 1 PiB = 2<sup>50</sup> bytes.
    PiB,
    /// 1 Eb = 10<sup>18</sup> bits.
    Ebit,
    /// 1 Eib = 2<sup>60</sup> bits.
    Eibit,
    /// 1 EB = 10<sup>18</sup> bytes.
    EB,
    /// 1 EiB = 2<sup>60</sup> bytes.
    EiB,
    /// 1 Zb = 10<sup>21</sup> bits.
    Zbit,
    /// 1 Zib = 2<sup>70</sup> bits.
    Zibit,
    /// 1 ZB = 10<sup>21</sup> bytes.
    ZB,
    /// 1 ZiB = 2<sup>70</sup> bytes.
    ZiB,
    /// 1 Yb = 10<sup>24</sup> bits.
    Ybit,
    /// 1 Yib = 2<sup>80</sup> bits.
    Yibit,
    /// 1 YB = 10<sup>24</sup> bytes.
    YB,
    /// 1 YiB = 2<sup>80</sup> bytes.
    YiB,
}

/// Which multiples a search for a unit may choose from.
#[derive(Clone, Copy, Debug, PartialEq, Eq, Structural, Hash)]
pub enum UnitType {
    /// Powers of 1024: Ki, Mi, and so on.
    Binary,
    /// Powers of 1000: K, M, and so on.
    Decimal,
    /// Both kinds, each in its place by size.
    Both,
}

/// `base` raised to the power `exp`.
pub open spec fn power(base: nat, exp: nat) -> nat
    decreases exp,
{
    if exp == 0 {
        1
    } else {
        base * power(base, (exp - 1) as nat)
    }
}

/// A power of a positive number is positive.
pub proof fn lemma_power_positive(base: nat, exp: nat)
    requires
        base > 0,
    ensures
        power(base, exp) > 0,
    decreases exp,
{
    if exp > 0 {
        lemma_power_positive(base, (exp - 1) as nat);
        assert(base * power(base, (exp - 1) as nat) > 0) by (nonlinear_arith)
            requires
                base > 0,
                power(base, (exp - 1) as nat) > 0,
        ;
    }
}

impl Unit {
    /// The rank of the unit's prefix: 0 without a prefix, 1 for kilo and
    /// kibi, up to 8 for yotta and yobi.
    pub open spec fn prefix_rank(self) -> nat {
        match self {
            Unit::Bit | Unit::B => 0,
            Unit::Kbit | Unit::Kibit | Unit::KB | Unit::KiB => 1,
            Unit::Mbit | Unit::Mibit | Unit::MB | Unit::MiB => 2,
            Unit::Gbit | Unit::Gibit | Unit::GB | Unit::GiB => 3,
            Unit::Tbit | Unit::Tibit | Unit::TB | Unit::TiB => 4,
            Unit::Pbit | Unit::Pibit | Unit::PB | Unit::PiB => 5,
            Unit::Ebit | Unit::Eibit | Unit::EB | Unit::EiB => 6,
            Unit::Zbit | Unit::Zibit | Unit::ZB | Unit::ZiB => 7,
            Unit::Ybit | Unit::Yibit | Unit::YB | Unit::YiB => 8,
        }
    }

    /// Whether the unit counts bits rather than bytes.
    pub open spec fn counts_bits(self) -> bool {
        match self {
            Unit::Bit
                | Unit::Kbit
                | Unit::Kibit
                | Unit::Mbit
                | Unit::Mibit
                | Unit::Gbit
                | Unit::Gibit
                | Unit::Tbit
                | Unit::Tibit
                | Unit::Pbit
                | Unit::Pibit
                | Unit::Ebit
                | Unit::Eibit
                | Unit::Zbit
                | Unit::Zibit
                | Unit::Ybit
                | Unit::Yibit => true,
            _ => false,
        }
    }

    /// Whether the unit's prefix is a power of 1024.
    pub open spec fn has_binary_prefix(self) -> bool {
        match self {
            Unit::Kibit
                | Unit::KiB
                | Unit::Mibit
                | Unit::MiB
                | Unit::Gibit
                | Unit::GiB
                | Unit::Tibit
                | Unit::TiB
                | Unit::Pibit
                | Unit::PiB
                | Unit::Eibit
                | Unit::EiB
                | Unit::Zibit
                | Unit::ZiB
                | Unit::Yibit
                | Unit::YiB => true,
            _ => false,
        }
    }

    /// Whether the unit is built on powers of 2: the byte and every unit
    /// with a binary prefix.
    pub open spec fn binary_multiples(self) -> bool {
        self == Unit::B || self.has_binary_prefix()
    }

    /// The number of bits in one unit: 1000 or 1024 to the power of the
    /// prefix's rank, times 8 for a unit of bytes.
    pub open spec fn bits(self) -> nat {
        let step: nat = if self.has_binary_prefix() { 1024 } else { 1000 };
        let width: nat = if self.counts_bits() { 1 } else { 8 };
        power(step, self.prefix_rank()) * width
    }

    /// The number of bytes in one unit, rounded down: for `Bit` it is 0.
    pub open spec fn bytes(self) -> nat {
        self.bits() / 8
    }

    /// The unit's symbol.
    pub open spec fn symbol(self) -> Seq<char> {
        match self {
            Unit::Bit => "b"@,
            Unit::B => "B"@,
            Unit::Kbit => "Kb"@,
            Unit::Kibit => "Kib"@,
            Unit::KB => "KB"@,
            Unit::KiB => "KiB"@,
            Unit::Mbit => "Mb"@,
            Unit::Mibit => "Mib"@,
            Unit::MB => "MB"@,
            Unit::MiB => "MiB"@,
            Unit::Gbit => "Gb"@,
            Unit::Gibit => "Gib"@,
            Unit::GB => "GB"@,
            Unit::GiB => "GiB"@,
            Unit::Tbit => "Tb"@,
            Unit::Tibit => "Tib"@,
            Unit::TB => "TB"@,
            Unit::TiB => "TiB"@,
            Unit::Pbit => "Pb"@,
            Unit::Pibit => "Pib"@,
            Unit::PB => "PB"@,
            Unit::PiB => "PiB"@,
            Unit::Ebit => "Eb"@,
            Unit::Eibit => "Eib"@,
            Unit::EB => "EB"@,
            Unit::EiB => "EiB"@,
            Unit::Zbit => "Zb"@,
            Unit::Zibit => "Zib"@,
            Unit::ZB => "ZB"@,
            Unit::ZiB => "ZiB"@,
            Unit::Ybit => "Yb"@,
            Unit::Yibit => "Yib"@,
            Unit::YB => "YB"@,
            Unit::YiB => "YiB"@,
        }
    }

    /// The base unit that counts bytes, or the one that counts bits.
    pub open spec fn base(byte: bool) -> Unit {
        if byte {
            Unit::B
        } else {
            Unit::Bit
        }
    }

    /// One of the four units that share a prefix.
    pub open spec fn pick(binary: bool, byte: bool, bit: Unit, ibit: Unit, b: Unit, ib: Unit) -> Unit {
        if byte {
            if binary {
                ib
            } else {
                b
            }
        } else {
            if binary {
                ibit
            } else {
                bit
            }
        }
    }

    /// The multiple with the prefix of rank `rank`, binary or decimal, of
    /// bytes or of bits. Ranks run from 1 to 8.
    pub open spec fn multiple(rank: nat, binary: bool, byte: bool) -> Unit {
        if rank == 1 {
            Unit::pick(binary, byte, Unit::Kbit, Unit::Kibit, Unit::KB, Unit::KiB)
        } else if rank == 2 {
            Unit::pick(binary, byte, Unit::Mbit, Unit::Mibit, Unit::MB, Unit::MiB)
        } else if rank == 3 {
            Unit::pick(binary, byte, Unit::Gbit, Unit::Gibit, Unit::GB, Unit::GiB)
        } else if rank == 4 {
            Unit::pick(binary, byte, Unit::Tbit, Unit::Tibit, Unit::TB, Unit::TiB)
        } else if rank == 5 {
            Unit::pick(binary, byte, Unit::Pbit, Unit::Pibit, Unit::PB, Unit::PiB)
        } else if rank == 6 {
            Unit::pick(binary, byte, Unit::Ebit, Unit::Eibit, Unit::EB, Unit::EiB)
        } else if rank == 7 {
            Unit::pick(binary, byte, Unit::Zbit, Unit::Zibit, Unit::ZB, Unit::ZiB)
        } else {
            Unit::pick(binary, byte, Unit::Ybit, Unit::Yibit, Unit::YB, Unit::YiB)
        }
    }

    /// The values of `bits` written out: each is the literal that
    /// `as_bits_u128` returns.
    pub proof fn lemma_bits_values(self)
        ensures
            self.bits() == match self {
                Unit::Bit => 1nat,
                Unit::B => 8nat,
                Unit::Kbit => 1000nat,
                Unit::Kibit => 1024nat,
                Unit::KB => 8000nat,
                Unit::KiB => 8192nat,
                Unit::Mbit => 1000000nat,
                Unit::Mibit => 1048576nat,
                Unit::MB => 8000000nat,
                Unit::MiB => 8388608nat,
                Unit::Gbit => 1000000000nat,
                Unit::Gibit => 1073741824nat,
                Unit::GB => 8000000000nat,
                Unit::GiB => 8589934592nat,
                Unit::Tbit => 1000000000000nat,
                Unit::Tibit => 1099511627776nat,
                Unit::TB => 8000000000000nat,
                Unit::TiB => 8796093022208nat,
                Unit::Pbit => 1000000000000000nat,
                Unit::Pibit => 1125899906842624nat,
                Unit::PB => 8000000000000000nat,
                Unit::PiB => 9007199254740992nat,
                Unit::Ebit => 1000000000000000000nat,
                Unit::Eibit => 1152921504606846976nat,
                Unit::EB => 8000000000000000000nat,
                Unit::EiB => 9223372036854775808nat,
                Unit::Zbit => 1000000000000000000000nat,
                Unit::Zibit => 1180591620717411303424nat,
                Unit::ZB => 8000000000000000000000nat,
                Unit::ZiB => 9444732965739290427392nat,
                Unit::Ybit => 1000000000000000000000000nat,
                Unit::Yibit => 1208925819614629174706176nat,
                Unit::YB => 8000000000000000000000000nat,
                Unit::YiB => 9671406556917033397649408nat,
            },
    {
        reveal_with_fuel(power, 9);
    }

    /// The base unit that counts bytes, or the one that counts bits.
    pub fn from_base(byte: bool) -> (r: Unit)
        ensures
            r == Unit::base(byte),
    {
        if byte {
            Unit::B
        } else {
            Unit::Bit
        }
    }

    /// The multiple with the prefix of rank `rank`, binary or decimal, of
    /// bytes or of bits.
    pub fn from_parts(rank: u8, binary: bool, byte: bool) -> (r: Unit)
        requires
            1 <= rank <= 8,
        ensures
            r == Unit::multiple(rank as nat, binary, byte),
            r.prefix_rank() == rank,
            r.has_binary_prefix() == binary,
            r.counts_bits() == !byte,
    {
        match (rank, binary, byte) {
            (1, false, false) => Unit::Kbit,
            (1, true, false) => Unit::Kibit,
            (1, false, true) => Unit::KB,
            (1, true, true) => Unit::KiB,
            (2, false, false) => Unit::Mbit,
            (2, true, false) => Unit::Mibit,
            (2, false, true) => Unit::MB,
            (2, true, true) => Unit::MiB,
            (3, false, false) => Unit::Gbit,
            (3, true, false) => Unit::Gibit,
            (3, false, true) => Unit::GB,
            (3, true, true) => Unit::GiB,
            (4, false, false) => Unit::Tbit,
            (4, true, false) => Unit::Tibit,
            (4, false, true) => Unit::TB,
            (4, true, true) => Unit::TiB,
            (5, false, false) => Unit::Pbit,
            (5, true, false) => Unit::Pibit,
            (5, false, true) => Unit::PB,
            (5, true, true) => Unit::PiB,
            (6, false, false) => Unit::Ebit,
            (6, true, false) => Unit::Eibit,
            (6, false, true) => Unit::EB,
            (6, true, true) => Unit::EiB,
            (7, false, false) => Unit::Zbit,
            (7, true, false) => Unit::Zibit,
            (7, false, true) => Unit::ZB,
            (7, true, true) => Unit::ZiB,
            (8, false, false) => Unit::Ybit,
            (8, true, false) => Unit::Yibit,
            (8, false, true) => Unit::YB,
            (_, _, _) => Unit::YiB,
        }
    }

    /// Retrieve the number of bits in one unit.
    pub fn as_bits_u128(self) -> (r: u128)
        ensures
            r == self.bits(),
    {
        proof {
            self.lemma_bits_values();
        }
        match self {
            Unit::Bit => 1,
            Unit::B => 8,
            Unit::Kbit => 1_000,
            Unit::Kibit => 1_024,
            Unit::KB => 8_000,
            Unit::KiB => 8_192,
            Unit::Mbit => 1_000_000,
            Unit::Mibit => 1_048_576,
            Unit::MB => 8_000_000,
            Unit::MiB => 8_388_608,
            Unit::Gbit => 1_000_000_000,
            Unit::Gibit => 1_073_741_824,
            Unit::GB => 8_000_000_000,
            Unit::GiB => 8_589_934_592,
            Unit::Tbit => 1_000_000_000_000,
            Unit::Tibit => 1_099_511_627_776,
            Unit::TB => 8_000_000_000_000,
            Unit::TiB => 8_796_093_022_208,
            Unit::Pbit => 1_000_000_000_000_000,
            Unit::Pibit => 1_125_899_906_842_624,
            Unit::PB => 8_000_000_000_000_000,
            Unit::PiB => 9_007_199_254_740_992,
            Unit::Ebit => 1_000_000_000_000_000_000,
            Unit::Eibit => 1_152_921_504_606_846_976,
            Unit::EB => 8_000_000_000_000_000_000,
            Unit::EiB => 9_223_372_036_854_775_808,
            Unit::Zbit => 1_000_000_000_000_000_000_000,
            Unit::Zibit => 1_180_591_620_717_411_303_424,
            Unit::ZB => 8_000_000_000_000_000_000_000,
            Unit::ZiB => 9_444_732_965_739_290_427_392,
            Unit::Ybit => 1_000_000_000_000_000_000_000_000,
            Unit::Yibit => 1_208_925_819_614_629_174_706_176,
            Unit::YB => 8_000_000_000_000_000_000_000_000,
            Unit::YiB => 9_671_406_556_917_033_397_649_408,
        }
    }

    /// Retrieve the number of bits in one unit, as the 64-bit value
    /// that holds it, or the largest 64-bit value where none does.
    pub fn as_bits_u64(self) -> (r: u64)
        ensures
            self.bits() <= u64::MAX ==> r == self.bits(),
            self.bits() > u64::MAX ==> r == u64::MAX,
    {
        let v: u128 = self.as_bits_u128();
        if v <= 0xffff_ffff_ffff_ffff {
            v as u64
        } else {
            u64::MAX
        }
    }

    /// Retrieve the number of bytes in one unit. For `Bit`, which is no
    /// whole number of bytes, it is 0.
    pub fn as_bytes_u128(self) -> (r: u128)
        ensures
            r == self.bytes(),
    {
        self.as_bits_u128() / 8
    }

    /// Retrieve the unit's symbol.
    pub fn as_str(self) -> (r: &'static str)
        ensures
            r@ == self.symbol(),
    {
        match self {
            Unit::Bit => "b",
            Unit::B => "B",
            Unit::Kbit => "Kb",
            Unit::Kibit => "Kib",
            Unit::KB => "KB",
            Unit::KiB => "KiB",
            Unit::Mbit => "Mb",
            Unit::Mibit => "Mib",
            Unit::MB => "MB",
            Unit::MiB => "MiB",
            Unit::Gbit => "Gb",
            Unit::Gibit => "Gib",
            Unit::GB => "GB",
            Unit::GiB => "GiB",
            Unit::Tbit => "Tb",
            Unit::Tibit => "Tib",
            Unit::TB => "TB",
            Unit::TiB => "TiB",
            Unit::Pbit => "Pb",
            Unit::Pibit => "Pib",
            Unit::PB => "PB",
            Unit::PiB => "PiB",
            Unit::Ebit => "Eb",
            Unit::Eibit => "Eib",
            Unit::EB => "EB",
            Unit::EiB => "EiB",
            Unit::Zbit => "Zb",
            Unit::Zibit => "Zib",
            Unit::ZB => "ZB",
            Unit::ZiB => "ZiB",
            Unit::Ybit => "Yb",
            Unit::Yibit => "Yib",
            Unit::YB => "YB",
            Unit::YiB => "YiB",
        }
    }

    /// Check whether the unit is based on bits.
    pub fn is_bit(self) -> (r: bool)
        ensures
            r == self.counts_bits(),
    {
        match self {
            Unit::Bit
            | Unit::Kbit
            | Unit::Kibit
            | Unit::Mbit
            | Unit::Mibit
            | Unit::Gbit
            | Unit::Gibit
            | Unit::Tbit
            | Unit::Tibit
            | Unit::Pbit
            | Unit::Pibit
            | Unit::Ebit
            | Unit::Eibit
            | Unit::Zbit
            | Unit::Zibit
            | Unit::Ybit
            | Unit::Yibit => true,
            _ => false,
        }
    }

    /// Check whether the unit is based on powers of 2.
    pub fn is_binary_multiples(self) -> (r: bool)
        ensures
            r == self.binary_multiples(),
    {
        match self {
            Unit::B
            | Unit::Kibit
            | Unit::KiB
            | Unit::Mibit
            | Unit::MiB
            | Unit::Gibit
            | Unit::GiB
            | Unit::Tibit
            | Unit::TiB
            | Unit::Pibit
            | Unit::PiB
            | Unit::Eibit
            | Unit::EiB
            | Unit::Zibit
            | Unit::ZiB
            | Unit::Yibit
            | Unit::YiB => true,
            _ => false,
        }
    }
}

/// The units that a search may choose from, and the order they stand in.
impl Unit {
    /// The multiple that stands at index `i` among all 32 multiples, in
    /// the order of their sizes: four to each prefix, bits before bytes
    /// and decimal before binary.
    pub open spec fn multiple_at(i: int) -> Unit {
        Unit::multiple((i / 4 + 1) as nat, i % 2 == 1, (i / 2) % 2 == 1)
    }

    /// All multiples, from the smallest to the largest.
    pub open spec fn multiples() -> Seq<Unit> {
        Seq::new(32, |i: int| Unit::multiple_at(i))
    }

    /// The multiples of the byte, from the smallest to the largest.
    pub open spec fn multiples_bytes() -> Seq<Unit> {
        Seq::new(16, |i: int| Unit::multiple((i / 2 + 1) as nat, i % 2 == 1, true))
    }

    /// The multiples of the bit, from the smallest to the largest.
    pub open spec fn multiples_bits() -> Seq<Unit> {
        Seq::new(16, |i: int| Unit::multiple((i / 2 + 1) as nat, i % 2 == 1, false))
    }

    /// All multiples, from the smallest to the largest.
    pub fn get_multiples() -> (r: &'static [Unit])
        ensures
            r@ == Unit::multiples(),
    {
        let a: &'static [Unit] = &[
            Unit::Kbit, Unit::Kibit, Unit::KB, Unit::KiB, Unit::Mbit, Unit::Mibit, Unit::MB,
            Unit::MiB, Unit::Gbit, Unit::Gibit, Unit::GB, Unit::GiB, Unit::Tbit, Unit::Tibit,
            Unit::TB, Unit::TiB, Unit::Pbit, Unit::Pibit, Unit::PB, Unit::PiB, Unit::Ebit,
            Unit::Eibit, Unit::EB, Unit::EiB, Unit::Zbit, Unit::Zibit, Unit::ZB, Unit::ZiB,
            Unit::Ybit, Unit::Yibit, Unit::YB, Unit::YiB,
        ];
        a
    }

    /// The multiples of the byte, from the smallest to the largest.
    pub fn get_multiples_bytes() -> (r: &'static [Unit])
        ensures
            r@ == Unit::multiples_bytes(),
    {
        let a: &'static [Unit] = &[
            Unit::KB, Unit::KiB, Unit::MB, Unit::MiB, Unit::GB, Unit::GiB, Unit::TB, Unit::TiB,
            Unit::PB, Unit::PiB, Unit::EB, Unit::EiB, Unit::ZB, Unit::ZiB, Unit::YB, Unit::YiB,
        ];
        a
    }

    /// The multiples of the bit, from the smallest to the largest.
    pub fn get_multiples_bits() -> (r: &'static [Unit])
        ensures
            r@ == Unit::multiples_bits(),
    {
        let a: &'static [Unit] = &[
            Unit::Kbit, Unit::Kibit, Unit::Mbit, Unit::Mibit, Unit::Gbit, Unit::Gibit,
            Unit::Tbit, Unit::Tibit, Unit::Pbit, Unit::Pibit, Unit::Ebit, Unit::Eibit,
            Unit::Zbit, Unit::Zibit, Unit::Ybit, Unit::Yibit,
        ];
        a
    }
}

} // verus!
