//! The data the scanner works with: signature definitions, detections and the
//! capture region.
use vstd::prelude::*;

verus! {

#[derive(Debug, Clone, Copy, PartialEq, Eq, Structural)]
pub enum SignatureCategory {
    Resource,
    AsteroidClass,
    GroundDeposit,
    Salvage,
    Ship,
    Unknown,
}

/// The display label of a category.
pub open spec fn category_label(c: SignatureCategory) -> Seq<char> {
    match c {
        SignatureCategory::Resource => "Mineral"@,
        SignatureCategory::AsteroidClass => "Asteroid"@,
        SignatureCategory::GroundDeposit => "Ground"@,
        SignatureCategory::Salvage => "Salvage"@,
        SignatureCategory::Ship => "Ship"@,
        SignatureCategory::Unknown => "Unknown"@,
    }
}

impl SignatureCategory {
    pub fn label(self) -> (r: &'static str)
        ensures
            r@ == category_label(self),
    {
        match self {
            SignatureCategory::Resource => "Mineral",
            SignatureCategory::AsteroidClass => "Asteroid",
            SignatureCategory::GroundDeposit => "Ground",
            SignatureCategory::Salvage => "Salvage",
            SignatureCategory::Ship => "Ship",
            SignatureCategory::Unknown => "Unknown",
        }
    }
}

/// A scanner signature: the base radar signature of one target and whether
/// clusters (integer multiples) of it are recognised.
#[derive(Debug, Clone)]
pub struct SignatureDefinition {
    pub id: String,
    pub canonical_name: String,
    pub category: SignatureCategory,
    pub base_signature: u32,
    pub multiplicative: bool,
    pub enabled: bool,
    pub source: String,
    pub game_version: String,
}

/// One definition matching an observed signature value.
#[derive(Debug, Clone)]
pub struct DetectionCandidate {
    pub target_id: String,
    pub name: String,
    pub category: SignatureCategory,
    pub observed_signature: u32,
    pub base_signature: u32,
    pub multiplier: u32,
}

/// The screen rectangle read by the scanner.
#[derive(Debug, Clone, Copy, PartialEq, Eq, Structural)]
pub struct CaptureRegion {
    pub x: i32,
    pub y: i32,
    pub width: u32,
    pub height: u32,
}

impl Default for CaptureRegion {
    fn default() -> (r: Self)
        ensures
            r == (CaptureRegion { x: 1240, y: 462, width: 230, height: 74 }),
    {
        CaptureRegion { x: 1240, y: 462, width: 230, height: 74 }
    }
}

} // verus!
