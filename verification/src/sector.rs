//! Registered proof types, sector sizes and seal-verification descriptors.

use vstd::prelude::*;

verus! {

/// Sector sizes the proof system supports, measured in bytes.
#[derive(Clone, Copy, Debug, PartialEq, Eq, Structural)]
pub enum SectorSize {
    _2KiB,
    _8MiB,
    _512MiB,
    _32GiB,
}

impl SectorSize {
    /// The size in bytes.
    pub fn bytes(self) -> (r: u64)
        ensures
            r == self.spec_bytes(),
    {
        match self {
            SectorSize::_2KiB => 2048,
            SectorSize::_8MiB => 0x800000,
            SectorSize::_512MiB => 0x20000000,
            SectorSize::_32GiB => 0x800000000,
        }
    }

    /// The size in bytes.
    pub open spec fn spec_bytes(self) -> u64 {
        match self {
            SectorSize::_2KiB => 2048,
            SectorSize::_8MiB => 0x800000,
            SectorSize::_512MiB => 0x20000000,
            SectorSize::_32GiB => 0x800000000,
        }
    }
}

/// Proof types registered with the network. The mapping to byte values is
/// consensus-critical and must never change.
#[derive(Clone, Copy, Debug, Hash, PartialEq, Eq, Structural)]
pub enum RegisteredProof {
    StackedDRG32GiBSeal,
    StackedDRG32GiBPoSt,
    StackedDRG2KiBSeal,
    StackedDRG2KiBPoSt,
    StackedDRG8MiBSeal,
    StackedDRG8MiBPoSt,
    StackedDRG512MiBSeal,
    StackedDRG512MiBPoSt,
    StackedDRG2KiBWinningPoSt,
    StackedDRG2KiBWindowPoSt,
    StackedDRG8MiBWinningPoSt,
    StackedDRG8MiBWindowPoSt,
    StackedDRG512MiBWinningPoSt,
    StackedDRG512MiBWindowPoSt,
    StackedDRG32GiBWinningPoSt,
    StackedDRG32GiBWindowPoSt,
}

/// A proof type has no counterpart of the requested flavour.
#[derive(Clone, Copy, Debug, PartialEq, Eq, Structural)]
pub enum ProofError {
    UnsupportedMapping,
}

/// The wire byte of each proof type.
pub open spec fn spec_proof_byte(p: RegisteredProof) -> u8 {
    match p {
        RegisteredProof::StackedDRG32GiBSeal => 1,
        RegisteredProof::StackedDRG32GiBPoSt => 2,
        RegisteredProof::StackedDRG2KiBSeal => 3,
        RegisteredProof::StackedDRG2KiBPoSt => 4,
        RegisteredProof::StackedDRG8MiBSeal => 5,
        RegisteredProof::StackedDRG8MiBPoSt => 6,
        RegisteredProof::StackedDRG512MiBSeal => 7,
        RegisteredProof::StackedDRG512MiBPoSt => 8,
        RegisteredProof::StackedDRG2KiBWinningPoSt => 9,
        RegisteredProof::StackedDRG2KiBWindowPoSt => 10,
        RegisteredProof::StackedDRG8MiBWinningPoSt => 11,
        RegisteredProof::StackedDRG8MiBWindowPoSt => 12,
        RegisteredProof::StackedDRG512MiBWinningPoSt => 13,
        RegisteredProof::StackedDRG512MiBWindowPoSt => 14,
        RegisteredProof::StackedDRG32GiBWinningPoSt => 15,
        RegisteredProof::StackedDRG32GiBWindowPoSt => 16,
    }
}

/// The proof type a wire byte denotes, if any.
pub open spec fn spec_proof_from_byte(b: u8) -> Option<RegisteredProof> {
    if b == 1 {
        Some(RegisteredProof::StackedDRG32GiBSeal)
    } else if b == 2 {
        Some(RegisteredProof::StackedDRG32GiBPoSt)
    } else if b == 3 {
        Some(RegisteredProof::StackedDRG2KiBSeal)
    } else if b == 4 {
        Some(RegisteredProof::StackedDRG2KiBPoSt)
    } else if b == 5 {
        Some(RegisteredProof::StackedDRG8MiBSeal)
    } else if b == 6 {
        Some(RegisteredProof::StackedDRG8MiBPoSt)
    } else if b == 7 {
        Some(RegisteredProof::StackedDRG512MiBSeal)
    } else if b == 8 {
        Some(RegisteredProof::StackedDRG512MiBPoSt)
    } else if b == 9 {
        Some(RegisteredProof::StackedDRG2KiBWinningPoSt)
    } else if b == 10 {
        Some(RegisteredProof::StackedDRG2KiBWindowPoSt)
    } else if b == 11 {
        Some(RegisteredProof::StackedDRG8MiBWinningPoSt)
    } else if b == 12 {
        Some(RegisteredProof::StackedDRG8MiBWindowPoSt)
    } else if b == 13 {
        Some(RegisteredProof::StackedDRG512MiBWinningPoSt)
    } else if b == 14 {
        Some(RegisteredProof::StackedDRG512MiBWindowPoSt)
    } else if b == 15 {
        Some(RegisteredProof::StackedDRG32GiBWinningPoSt)
    } else if b == 16 {
        Some(RegisteredProof::StackedDRG32GiBWindowPoSt)
    } else {
        None
    }
}

/// Wire bytes and proof types round-trip: decoding the byte of any proof
/// type gives that proof type back.
pub proof fn lemma_proof_byte_round_trip(p: RegisteredProof)
    ensures
        spec_proof_from_byte(spec_proof_byte(p)) == Some(p),
{
}

/// The winning-PoSt counterpart of each proof type, where one exists.
pub open spec fn spec_winning_post_proof(p: RegisteredProof) -> Option<RegisteredProof> {
    match p {
        RegisteredProof::StackedDRG32GiBSeal
        | RegisteredProof::StackedDRG32GiBWinningPoSt => Some(
            RegisteredProof::StackedDRG32GiBWinningPoSt,
        ),
        RegisteredProof::StackedDRG2KiBSeal
        | RegisteredProof::StackedDRG2KiBWinningPoSt => Some(
            RegisteredProof::StackedDRG2KiBWinningPoSt,
        ),
        RegisteredProof::StackedDRG8MiBSeal
        | RegisteredProof::StackedDRG8MiBWinningPoSt => Some(
            RegisteredProof::StackedDRG8MiBWinningPoSt,
        ),
        RegisteredProof::StackedDRG512MiBSeal
        | RegisteredProof::StackedDRG512MiBWinningPoSt => Some(
            RegisteredProof::StackedDRG512MiBWinningPoSt,
        ),
        _ => None,
    }
}

/// The window-PoSt counterpart of each proof type, where one exists.
pub open spec fn spec_window_post_proof(p: RegisteredProof) -> Option<RegisteredProof> {
    match p {
        RegisteredProof::StackedDRG32GiBSeal
        | RegisteredProof::StackedDRG32GiBWindowPoSt => Some(
            RegisteredProof::StackedDRG32GiBWindowPoSt,
        ),
        RegisteredProof::StackedDRG2KiBSeal
        | RegisteredProof::StackedDRG2KiBWindowPoSt => Some(
            RegisteredProof::StackedDRG2KiBWindowPoSt,
        ),
        RegisteredProof::StackedDRG8MiBSeal
        | RegisteredProof::StackedDRG8MiBWindowPoSt => Some(
            RegisteredProof::StackedDRG8MiBWindowPoSt,
        ),
        RegisteredProof::StackedDRG512MiBSeal
        | RegisteredProof::StackedDRG512MiBWindowPoSt => Some(
            RegisteredProof::StackedDRG512MiBWindowPoSt,
        ),
        _ => None,
    }
}

impl RegisteredProof {
    /// Decodes a wire byte.
    pub fn from_byte(b: u8) -> (r: Option<Self>)
        ensures
            r == spec_proof_from_byte(b),
    {
        if b == 1 {
            Some(RegisteredProof::StackedDRG32GiBSeal)
        } else if b == 2 {
            Some(RegisteredProof::StackedDRG32GiBPoSt)
        } else if b == 3 {
            Some(RegisteredProof::StackedDRG2KiBSeal)
        } else if b == 4 {
            Some(RegisteredProof::StackedDRG2KiBPoSt)
        } else if b == 5 {
            Some(RegisteredProof::StackedDRG8MiBSeal)
        } else if b == 6 {
            Some(RegisteredProof::StackedDRG8MiBPoSt)
        } else if b == 7 {
            Some(RegisteredProof::StackedDRG512MiBSeal)
        } else if b == 8 {
            Some(RegisteredProof::StackedDRG512MiBPoSt)
        } else if b == 9 {
            Some(RegisteredProof::StackedDRG2KiBWinningPoSt)
        } else if b == 10 {
            Some(RegisteredProof::StackedDRG2KiBWindowPoSt)
        } else if b == 11 {
            Some(RegisteredProof::StackedDRG8MiBWinningPoSt)
        } else if b == 12 {
            Some(RegisteredProof::StackedDRG8MiBWindowPoSt)
        } else if b == 13 {
            Some(RegisteredProof::StackedDRG512MiBWinningPoSt)
        } else if b == 14 {
            Some(RegisteredProof::StackedDRG512MiBWindowPoSt)
        } else if b == 15 {
            Some(RegisteredProof::StackedDRG32GiBWinningPoSt)
        } else if b == 16 {
            Some(RegisteredProof::StackedDRG32GiBWindowPoSt)
        } else {
            None
        }
    }

    /// Encodes to the wire byte.
    pub fn as_byte(self) -> (r: u8)
        ensures
            r == spec_proof_byte(self),
            spec_proof_from_byte(r) == Some(self),
    {
        match self {
            RegisteredProof::StackedDRG32GiBSeal => 1,
            RegisteredProof::StackedDRG32GiBPoSt => 2,
            RegisteredProof::StackedDRG2KiBSeal => 3,
            RegisteredProof::StackedDRG2KiBPoSt => 4,
            RegisteredProof::StackedDRG8MiBSeal => 5,
            RegisteredProof::StackedDRG8MiBPoSt => 6,
            RegisteredProof::StackedDRG512MiBSeal => 7,
            RegisteredProof::StackedDRG512MiBPoSt => 8,
            RegisteredProof::StackedDRG2KiBWinningPoSt => 9,
            RegisteredProof::StackedDRG2KiBWindowPoSt => 10,
            RegisteredProof::StackedDRG8MiBWinningPoSt => 11,
            RegisteredProof::StackedDRG8MiBWindowPoSt => 12,
            RegisteredProof::StackedDRG512MiBWinningPoSt => 13,
            RegisteredProof::StackedDRG512MiBWindowPoSt => 14,
            RegisteredProof::StackedDRG32GiBWinningPoSt => 15,
            RegisteredProof::StackedDRG32GiBWindowPoSt => 16,
        }
    }

    /// The sector size the proof type covers.
    pub fn sector_size(self) -> (r: SectorSize)
        ensures
            r == self.spec_sector_size(),
    {
        match self {
            RegisteredProof::StackedDRG32GiBSeal
            | RegisteredProof::StackedDRG32GiBPoSt
            | RegisteredProof::StackedDRG32GiBWindowPoSt
            | RegisteredProof::StackedDRG32GiBWinningPoSt => SectorSize::_32GiB,
            RegisteredProof::StackedDRG2KiBSeal
            | RegisteredProof::StackedDRG2KiBPoSt
            | RegisteredProof::StackedDRG2KiBWindowPoSt
            | RegisteredProof::StackedDRG2KiBWinningPoSt => SectorSize::_2KiB,
            RegisteredProof::StackedDRG8MiBSeal
            | RegisteredProof::StackedDRG8MiBPoSt
            | RegisteredProof::StackedDRG8MiBWindowPoSt
            | RegisteredProof::StackedDRG8MiBWinningPoSt => SectorSize::_8MiB,
            RegisteredProof::StackedDRG512MiBSeal
            | RegisteredProof::StackedDRG512MiBPoSt
            | RegisteredProof::StackedDRG512MiBWindowPoSt
            | RegisteredProof::StackedDRG512MiBWinningPoSt => SectorSize::_512MiB,
        }
    }

    /// The sector size the proof type covers.
    pub open spec fn spec_sector_size(self) -> SectorSize {
        match self {
            RegisteredProof::StackedDRG32GiBSeal
            | RegisteredProof::StackedDRG32GiBPoSt
            | RegisteredProof::StackedDRG32GiBWindowPoSt
            | RegisteredProof::StackedDRG32GiBWinningPoSt => SectorSize::_32GiB,
            RegisteredProof::StackedDRG2KiBSeal
            | RegisteredProof::StackedDRG2KiBPoSt
            | RegisteredProof::StackedDRG2KiBWindowPoSt
            | RegisteredProof::StackedDRG2KiBWinningPoSt => SectorSize::_2KiB,
            RegisteredProof::StackedDRG8MiBSeal
            | RegisteredProof::StackedDRG8MiBPoSt
            | RegisteredProof::StackedDRG8MiBWindowPoSt
            | RegisteredProof::StackedDRG8MiBWinningPoSt => SectorSize::_8MiB,
            RegisteredProof::StackedDRG512MiBSeal
            | RegisteredProof::StackedDRG512MiBPoSt
            | RegisteredProof::StackedDRG512MiBWindowPoSt
            | RegisteredProof::StackedDRG512MiBWinningPoSt => SectorSize::_512MiB,
        }
    }

    /// The winning-PoSt proof type corresponding to this one.
    pub fn registered_winning_post_proof(self) -> (r: Result<RegisteredProof, ProofError>)
        ensures
            match spec_winning_post_proof(self) {
                Some(p) => r == Ok::<RegisteredProof, ProofError>(p),
                None => r == Err::<RegisteredProof, ProofError>(ProofError::UnsupportedMapping),
            },
    {
        match self {
            RegisteredProof::StackedDRG32GiBSeal
            | RegisteredProof::StackedDRG32GiBWinningPoSt => Ok(
                RegisteredProof::StackedDRG32GiBWinningPoSt,
            ),
            RegisteredProof::StackedDRG2KiBSeal
            | RegisteredProof::StackedDRG2KiBWinningPoSt => Ok(
                RegisteredProof::StackedDRG2KiBWinningPoSt,
            ),
            RegisteredProof::StackedDRG8MiBSeal
            | RegisteredProof::StackedDRG8MiBWinningPoSt => Ok(
                RegisteredProof::StackedDRG8MiBWinningPoSt,
            ),
            RegisteredProof::StackedDRG512MiBSeal
            | RegisteredProof::StackedDRG512MiBWinningPoSt => Ok(
                RegisteredProof::StackedDRG512MiBWinningPoSt,
            ),
            _ => Err(ProofError::UnsupportedMapping),
        }
    }

    /// The window-PoSt proof type corresponding to this one.
    pub fn registered_window_post_proof(self) -> (r: Result<RegisteredProof, ProofError>)
        ensures
            match spec_window_post_proof(self) {
                Some(p) => r == Ok::<RegisteredProof, ProofError>(p),
                None => r == Err::<RegisteredProof, ProofError>(ProofError::UnsupportedMapping),
            },
    {
        match self {
            RegisteredProof::StackedDRG32GiBSeal
            | RegisteredProof::StackedDRG32GiBWindowPoSt => Ok(
                RegisteredProof::StackedDRG32GiBWindowPoSt,
            ),
            RegisteredProof::StackedDRG2KiBSeal
            | RegisteredProof::StackedDRG2KiBWindowPoSt => Ok(
                RegisteredProof::StackedDRG2KiBWindowPoSt,
            ),
            RegisteredProof::StackedDRG8MiBSeal
            | RegisteredProof::StackedDRG8MiBWindowPoSt => Ok(
                RegisteredProof::StackedDRG8MiBWindowPoSt,
            ),
            RegisteredProof::StackedDRG512MiBSeal
            | RegisteredProof::StackedDRG512MiBWindowPoSt => Ok(
                RegisteredProof::StackedDRG512MiBWindowPoSt,
            ),
            _ => Err(ProofError::UnsupportedMapping),
        }
    }

    /// The seal proof type corresponding to this one.
    pub fn registered_seal_proof(self) -> (r: RegisteredProof)
        ensures
            r == self.spec_seal_proof(),
    {
        match self {
            RegisteredProof::StackedDRG32GiBSeal
            | RegisteredProof::StackedDRG32GiBPoSt
            | RegisteredProof::StackedDRG32GiBWindowPoSt
            | RegisteredProof::StackedDRG32GiBWinningPoSt => RegisteredProof::StackedDRG32GiBSeal,
            RegisteredProof::StackedDRG2KiBSeal
            | RegisteredProof::StackedDRG2KiBPoSt
            | RegisteredProof::StackedDRG2KiBWindowPoSt
            | RegisteredProof::StackedDRG2KiBWinningPoSt => RegisteredProof::StackedDRG2KiBSeal,
            RegisteredProof::StackedDRG8MiBSeal
            | RegisteredProof::StackedDRG8MiBPoSt
            | RegisteredProof::StackedDRG8MiBWindowPoSt
            | RegisteredProof::StackedDRG8MiBWinningPoSt => RegisteredProof::StackedDRG8MiBSeal,
            RegisteredProof::StackedDRG512MiBSeal
            | RegisteredProof::StackedDRG512MiBPoSt
            | RegisteredProof::StackedDRG512MiBWindowPoSt
            | RegisteredProof::StackedDRG512MiBWinningPoSt => RegisteredProof::StackedDRG512MiBSeal,
        }
    }

    /// The seal proof type corresponding to this one.
    pub open spec fn spec_seal_proof(self) -> RegisteredProof {
        match self {
            RegisteredProof::StackedDRG32GiBSeal
            | RegisteredProof::StackedDRG32GiBPoSt
            | RegisteredProof::StackedDRG32GiBWindowPoSt
            | RegisteredProof::StackedDRG32GiBWinningPoSt => RegisteredProof::StackedDRG32GiBSeal,
            RegisteredProof::StackedDRG2KiBSeal
            | RegisteredProof::StackedDRG2KiBPoSt
            | RegisteredProof::StackedDRG2KiBWindowPoSt
            | RegisteredProof::StackedDRG2KiBWinningPoSt => RegisteredProof::StackedDRG2KiBSeal,
            RegisteredProof::StackedDRG8MiBSeal
            | RegisteredProof::StackedDRG8MiBPoSt
            | RegisteredProof::StackedDRG8MiBWindowPoSt
            | RegisteredProof::StackedDRG8MiBWinningPoSt => RegisteredProof::StackedDRG8MiBSeal,
            RegisteredProof::StackedDRG512MiBSeal
            | RegisteredProof::StackedDRG512MiBPoSt
            | RegisteredProof::StackedDRG512MiBWindowPoSt
            | RegisteredProof::StackedDRG512MiBWinningPoSt => RegisteredProof::StackedDRG512MiBSeal,
        }
    }
}

impl Default for RegisteredProof {
    fn default() -> (r: Self)
        ensures
            r == RegisteredProof::StackedDRG2KiBPoSt,
    {
        RegisteredProof::StackedDRG2KiBPoSt
    }
}

/// A sector, identified by its owning miner and its miner-scoped number.
#[derive(Clone, Copy, Debug, PartialEq, Eq, Structural)]
pub struct SectorID {
    pub miner: u64,
    pub number: u64,
}

/// Everything the proof system needs to verify one seal; opaque to the
/// power actor except for the sector identity.
#[derive(Clone, Debug)]
pub struct SealVerifyInfo {
    pub registered_proof: RegisteredProof,
    pub sector_id: SectorID,
    pub proof: Vec<u8>,
}

} // verus!
