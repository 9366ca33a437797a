//! The commands of the FLASHCALW controller and its speed modes.
use vstd::prelude::*;

verus! {

/// The commands the controller recognises, in the
/// order of their codes.
#[derive(Clone, Copy, Debug, PartialEq, Eq, Structural)]
pub enum FlashCMD {
    NOP,
    WP,
    EP,
    CPB,
    LP,
    UP,
    EA,
    WGPB,
    EGPB,
    SSB,
    PGPFB,
    EAGPF,
    QPR,
    WUP,
    EUP,
    QPRUP,
    HSEN,
    HSDIS,
}

/// The two flash read speeds.
#[derive(Clone, Copy, Debug, PartialEq, Eq, Structural)]
pub enum Speed {
    Standard,
    HighSpeed,
}

impl FlashCMD {
    /// The code of the command, as written to bits 0..5 of the command register.
    pub open spec fn spec_code(self) -> u32 {
        match self {
            FlashCMD::NOP => 0,
            FlashCMD::WP => 1,
            FlashCMD::EP => 2,
            FlashCMD::CPB => 3,
            FlashCMD::LP => 4,
            FlashCMD::UP => 5,
            FlashCMD::EA => 6,
            FlashCMD::WGPB => 7,
            FlashCMD::EGPB => 8,
            FlashCMD::SSB => 9,
            FlashCMD::PGPFB => 10,
            FlashCMD::EAGPF => 11,
            FlashCMD::QPR => 12,
            FlashCMD::WUP => 13,
            FlashCMD::EUP => 14,
            FlashCMD::QPRUP => 15,
            FlashCMD::HSEN => 16,
            FlashCMD::HSDIS => 17,
        }
    }

    /// The code of the command.
    #[verifier::when_used_as_spec(spec_code)]
    pub fn code(self) -> (r: u32)
        ensures
            r == self.spec_code(),
            r < 18,
    {
        match self {
            FlashCMD::NOP => 0,
            FlashCMD::WP => 1,
            FlashCMD::EP => 2,
            FlashCMD::CPB => 3,
            FlashCMD::LP => 4,
            FlashCMD::UP => 5,
            FlashCMD::EA => 6,
            FlashCMD::WGPB => 7,
            FlashCMD::EGPB => 8,
            FlashCMD::SSB => 9,
            FlashCMD::PGPFB => 10,
            FlashCMD::EAGPF => 11,
            FlashCMD::QPR => 12,
            FlashCMD::WUP => 13,
            FlashCMD::EUP => 14,
            FlashCMD::QPRUP => 15,
            FlashCMD::HSEN => 16,
            FlashCMD::HSDIS => 17,
        }
    }
}

} // verus!
