//! The SSTV mode table: VIS codes, names and image resolutions.
use vstd::prelude::*;

verus! {

/// An SSTV transmission mode, as announced by the VIS code.
#[derive(Debug, Clone, Copy, PartialEq, Eq, Structural)]
pub enum SstvMode {
    Martin1,
    Martin2,
    Scottie1,
    Scottie2,
    ScottieDX,
    Robot36,
    Robot72,
    Unknown(u8),
}

/// Decoding parameters of a mode.
pub struct DecodeConfig {
    resolution: (u32, u32),
}

/// The mode that a VIS code announces.
pub open spec fn mode_of_vis(vis: u8) -> SstvMode {
    if vis == 44 {
        SstvMode::Martin1
    } else if vis == 40 {
        SstvMode::Martin2
    } else if vis == 60 {
        SstvMode::Scottie1
    } else if vis == 56 {
        SstvMode::Scottie2
    } else if vis == 76 {
        SstvMode::ScottieDX
    } else if vis == 8 {
        SstvMode::Robot36
    } else if vis == 12 {
        SstvMode::Robot72
    } else {
        SstvMode::Unknown(vis)
    }
}

/// The VIS code of a mode; an unknown mode reports 0.
pub open spec fn vis_of_mode(m: SstvMode) -> u8 {
    match m {
        SstvMode::Martin1 => 44,
        SstvMode::Martin2 => 40,
        SstvMode::Scottie1 => 60,
        SstvMode::Scottie2 => 56,
        SstvMode::ScottieDX => 76,
        SstvMode::Robot36 => 8,
        SstvMode::Robot72 => 12,
        SstvMode::Unknown(_) => 0,
    }
}

impl SstvMode {
    /// Resolves a VIS code to its mode; codes outside the table give `Unknown(vis)`.
    pub fn from_vis(vis: u8) -> (r: SstvMode)
        ensures
            r == mode_of_vis(vis),
    {
        match vis {
            44 => SstvMode::Martin1,
            40 => SstvMode::Martin2,
            60 => SstvMode::Scottie1,
            56 => SstvMode::Scottie2,
            76 => SstvMode::ScottieDX,
            8 => SstvMode::Robot36,
            12 => SstvMode::Robot72,
            x => SstvMode::Unknown(x),
        }
    }

    /// The VIS code of this mode (0 for an unknown mode).
    pub fn to_vis(self) -> (r: u8)
        ensures
            r == vis_of_mode(self),
    {
        match self {
            SstvMode::Martin1 => 44,
            SstvMode::Martin2 => 40,
            SstvMode::Scottie1 => 60,
            SstvMode::Scottie2 => 56,
            SstvMode::ScottieDX => 76,
            SstvMode::Robot36 => 8,
            SstvMode::Robot72 => 12,
            SstvMode::Unknown(_) => 0,
        }
    }

    /// A human-readable name of the mode.
    pub fn name(&self) -> (r: &'static str)
        ensures
            r@ == mode_name(*self),
    {
        match self {
            SstvMode::Martin1 => "Martin 1",
            SstvMode::Martin2 => "Martin 2",
            SstvMode::Scottie1 => "Scottie 1",
            SstvMode::Scottie2 => "Scottie 2",
            SstvMode::ScottieDX => "Scottie DX",
            SstvMode::Robot36 => "Robot 36",
            SstvMode::Robot72 => "Robot 72",
            SstvMode::Unknown(_) => "Unknown",
        }
    }

    /// The decoding parameters of the mode; only Martin 1 has them so far.
    pub fn config(&self) -> (r: DecodeConfig)
        requires
            *self == SstvMode::Martin1,
        ensures
            r.spec_resolution() == (320u32, 256u32),
    {
        DecodeConfig { resolution: (320, 256) }
    }
}

/// The name that `SstvMode::name` gives a mode.
pub open spec fn mode_name(m: SstvMode) -> Seq<char> {
    match m {
        SstvMode::Martin1 => "Martin 1"@,
        SstvMode::Martin2 => "Martin 2"@,
        SstvMode::Scottie1 => "Scottie 1"@,
        SstvMode::Scottie2 => "Scottie 2"@,
        SstvMode::ScottieDX => "Scottie DX"@,
        SstvMode::Robot36 => "Robot 36"@,
        SstvMode::Robot72 => "Robot 72"@,
        SstvMode::Unknown(_) => "Unknown"@,
    }
}

impl DecodeConfig {
    /// The spec view of the resolution, `(width, height)`.
    pub closed spec fn spec_resolution(&self) -> (u32, u32) {
        self.resolution
    }

    /// The image resolution, `(width, height)`.
    pub fn resolution(&self) -> (r: (u32, u32))
        ensures
            r == self.spec_resolution(),
    {
        self.resolution
    }
}

/// Every named mode survives a round trip through its VIS code.
pub proof fn lemma_vis_round_trip(m: SstvMode)
    requires
        !(m is Unknown),
    ensures
        mode_of_vis(vis_of_mode(m)) == m,
{
}

} // verus!
