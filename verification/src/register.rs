//! nftables registers, as carried in the source and destination register
//! attributes of an expression.
use vstd::prelude::*;

verus! {

/// Number of the verdict register.
pub const NFT_REG_0: u32 = 0;

/// Number of the first of the four 128-bit data registers.
pub const NFT_REG_1: u32 = 1;

/// Number of the last of the four 128-bit data registers.
pub const NFT_REG_4: u32 = 4;

/// Number of the first of the sixteen 32-bit data registers.
pub const NFT_REG32_00: u32 = 8;

/// Number of the last of the sixteen 32-bit data registers.
pub const NFT_REG32_15: u32 = 23;

/// A register of the nftables virtual machine.
#[derive(Debug, Clone, Copy, PartialEq, Eq)]
#[non_exhaustive]
pub enum Register {
    /// The verdict register.
    Verdict,
    /// 128-bit data register 1.
    Reg1,
    /// 128-bit data register 2.
    Reg2,
    /// 128-bit data register 3.
    Reg3,
    /// 128-bit data register 4.
    Reg4,
    /// 32-bit data register `00` to `15`, by its index.
    Reg32(u8),
    /// A register number that has no name here.
    Other(u32),
}

impl Register {
    /// The register that the number `n` designates.
    pub open spec fn spec_from_u32(n: u32) -> Register {
        if n == NFT_REG_0 {
            Register::Verdict
        } else if n == 1 {
            Register::Reg1
        } else if n == 2 {
            Register::Reg2
        } else if n == 3 {
            Register::Reg3
        } else if n == NFT_REG_4 {
            Register::Reg4
        } else if NFT_REG32_00 <= n <= NFT_REG32_15 {
            Register::Reg32((n - NFT_REG32_00) as u8)
        } else {
            Register::Other(n)
        }
    }

    /// The number of register `self`.
    pub open spec fn spec_to_u32(self) -> u32 {
        match self {
            Register::Verdict => NFT_REG_0,
            Register::Reg1 => 1,
            Register::Reg2 => 2,
            Register::Reg3 => 3,
            Register::Reg4 => NFT_REG_4,
            Register::Reg32(i) => (NFT_REG32_00 + i) as u32,
            Register::Other(n) => n,
        }
    }

    /// A register value in its one canonical form: a 32-bit register index
    /// below sixteen, and `Other` only for numbers that have no name.
    pub open spec fn wf(self) -> bool {
        match self {
            Register::Reg32(i) => i < 16,
            Register::Other(n) => !(n <= NFT_REG_4 || (NFT_REG32_00 <= n <= NFT_REG32_15)),
            _ => true,
        }
    }

    /// The register that the number `n` designates.
    pub fn from_u32(n: u32) -> (r: Register)
        ensures
            r == Register::spec_from_u32(n),
            r.wf(),
            n == 0 ==> r == Register::Verdict,
            n == 1 ==> r == Register::Reg1,
            n == 2 ==> r == Register::Reg2,
            n == 3 ==> r == Register::Reg3,
            n == 4 ==> r == Register::Reg4,
            8 <= n <= 23 ==> r == Register::Reg32((n - 8) as u8),
            (5 <= n <= 7 || n > 23) ==> r == Register::Other(n),
    {
        if n == NFT_REG_0 {
            Register::Verdict
        } else if n == 1 {
            Register::Reg1
        } else if n == 2 {
            Register::Reg2
        } else if n == 3 {
            Register::Reg3
        } else if n == NFT_REG_4 {
            Register::Reg4
        } else if NFT_REG32_00 <= n && n <= NFT_REG32_15 {
            Register::Reg32((n - NFT_REG32_00) as u8)
        } else {
            Register::Other(n)
        }
    }

    /// The number of this register.
    pub fn to_u32(&self) -> (n: u32)
        ensures
            n == self.spec_to_u32(),
            Register::spec_from_u32(n) == *self || !self.wf(),
            *self matches Register::Reg32(i) ==> n == 8 + i,
            *self matches Register::Other(m) ==> n == m,
    {
        match self {
            Register::Verdict => NFT_REG_0,
            Register::Reg1 => 1,
            Register::Reg2 => 2,
            Register::Reg3 => 3,
            Register::Reg4 => NFT_REG_4,
            Register::Reg32(i) => NFT_REG32_00 + *i as u32,
            Register::Other(n) => *n,
        }
    }
}

impl From<u32> for Register {
    fn from(n: u32) -> (r: Register) {
        Register::from_u32(n)
    }
}

impl vstd::std_specs::convert::FromSpecImpl<u32> for Register {
    open spec fn obeys_from_spec() -> bool {
        true
    }

    open spec fn from_spec(n: u32) -> Register {
        Register::spec_from_u32(n)
    }
}

impl From<Register> for u32 {
    fn from(r: Register) -> (n: u32) {
        r.to_u32()
    }
}

impl vstd::std_specs::convert::FromSpecImpl<Register> for u32 {
    open spec fn obeys_from_spec() -> bool {
        true
    }

    open spec fn from_spec(r: Register) -> u32 {
        r.spec_to_u32()
    }
}

/// Every register number survives the trip through `Register` unchanged.
pub proof fn lemma_register_number_roundtrip(n: u32)
    ensures
        Register::spec_from_u32(n).wf(),
        Register::spec_from_u32(n).spec_to_u32() == n,
{
}

/// Every register in canonical form survives the trip through its number.
pub proof fn lemma_register_roundtrip(r: Register)
    requires
        r.wf(),
    ensures
        Register::spec_from_u32(r.spec_to_u32()) == r,
{
}

} // verus!
