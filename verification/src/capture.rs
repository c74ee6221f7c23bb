//! Screen capture configuration and the interface of a capture backend.
use vstd::prelude::*;

use crate::models::CaptureRegion;

verus! {

#[verifier::external_type_specification]
#[verifier::external_body]
pub struct ExAnyhowError(anyhow::Error);

/// What to capture and how often.
#[derive(Debug, Clone, Copy, PartialEq, Eq, Structural)]
pub struct CaptureConfig {
    pub region: CaptureRegion,
    pub target_fps: u32,
}

impl Default for CaptureConfig {
    /// The default region at 30 frames per second.
    fn default() -> (r: Self)
        ensures
            r.region == (CaptureRegion { x: 1240, y: 462, width: 230, height: 74 }),
            r.target_fps == 30,
    {
        CaptureConfig { region: CaptureRegion::default(), target_fps: 30 }
    }
}

/// A source of screen captures that can be started and stopped.
pub trait CaptureBackend {
    fn start(&mut self, config: CaptureConfig) -> Result<(), anyhow::Error>;

    fn stop(&mut self) -> Result<(), anyhow::Error>;
}

/// A backend that captures nothing; starting and stopping always succeed.
#[derive(Debug, Default)]
pub struct NullCaptureBackend;

impl CaptureBackend for NullCaptureBackend {
    fn start(&mut self, config: CaptureConfig) -> (r: Result<(), anyhow::Error>)
        ensures
            r is Ok,
    {
        Ok(())
    }

    fn stop(&mut self) -> (r: Result<(), anyhow::Error>)
        ensures
            r is Ok,
    {
        Ok(())
    }
}

} // verus!
