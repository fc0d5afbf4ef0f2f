//! Shared types: settings, observations, candidates, decisions, events and recordings.
//!
//! Measured quantities (coordinates, health, distances, probabilities) are carried as
//! their IEEE-754 bit patterns (`f64::to_bits` for coordinates, distances and
//! probabilities, `f32::to_bits` for health and food). The bit pattern is exact: the
//! engine's rules either only carry such a value or only ask whether it is finite or
//! inside a closed range, which the bit pattern decides on its own.
use vstd::prelude::*;

verus! {

/// Where the session's telemetry comes from.
#[derive(Clone, Copy, Debug, PartialEq, Eq, Structural)]
pub enum Mode {
    /// The synthetic offline fixture.
    Demo,
    /// A live Minecraft bot.
    Live,
}

/// Waypoint geometry the offline fixture is built with. `Distant` is the default, so the
/// desktop demo shows the honest expiry path; `Reachable` lets one bounded goal arrive.
#[derive(Clone, Copy, Debug, PartialEq, Eq, Structural)]
pub enum FixtureWaypoint {
    Distant,
    Reachable,
}

impl Default for FixtureWaypoint {
    fn default() -> (r: Self)
        ensures
            r == FixtureWaypoint::Distant,
    {
        FixtureWaypoint::Distant
    }
}

/// Session settings, as chosen by the operator and recorded with every recording.
#[derive(Clone, Debug)]
pub struct Settings {
    pub legacy_forwarding: bool,
    pub fixture_waypoint: FixtureWaypoint,
    pub mode: Mode,
    pub port: u16,
    pub bot_name: String,
    pub max_requests: u32,
    pub max_seconds: u64,
    /// Operator-stated session goal; empty means the session has none. It reaches the
    /// model as structured state; the engine never derives an action from it.
    pub objective: String,
    /// Minimum gap between model requests in a continuous session; `0` is unpaced.
    pub request_interval_ms: u64,
    /// Opt-in engine safety reflex, off by default.
    pub safety_reflex: bool,
}

impl Default for Settings {
    fn default() -> (s: Self)
        ensures
            !s.legacy_forwarding,
            s.fixture_waypoint == FixtureWaypoint::Distant,
            s.mode == Mode::Demo,
            s.port == 25565,
            s.bot_name@ == "JevBot"@,
            s.max_requests == 30,
            s.max_seconds == 300,
            s.objective@ == Seq::<char>::empty(),
            s.request_interval_ms == 0,
            !s.safety_reflex,
    {
        Settings {
            legacy_forwarding: false,
            fixture_waypoint: FixtureWaypoint::Distant,
            mode: Mode::Demo,
            port: 25565,
            bot_name: String::from_str("JevBot"),
            max_requests: 30,
            max_seconds: 300,
            objective: String::new(),
            request_interval_ms: 0,
            safety_reflex: false,
        }
    }
}

/// A position; each coordinate is the bit pattern of an `f64`.
#[derive(Clone, Copy, Debug, PartialEq, Eq, Structural)]
pub struct Position {
    pub x_bits: u64,
    pub y_bits: u64,
    pub z_bits: u64,
}

/// A named observed location (a block, a waypoint or an entity).
#[derive(Clone, Debug)]
pub struct Landmark {
    pub name: String,
    pub position: Position,
}

/// One observation of the game world.
#[derive(Clone, Debug)]
pub struct Observation {
    /// Adapter-local world lifecycle; changes even on a same-dimension respawn.
    pub world_epoch: u64,
    /// Server-reported dimension identifier; absent in legacy recordings.
    pub dimension: Option<String>,
    /// Deaths the adapter has seen this connection; monotonic.
    pub deaths: u64,
    pub sequence: u64,
    pub connected: bool,
    pub position: Position,
    /// Bit pattern of the `f32` health.
    pub health_bits: u32,
    /// Bit pattern of the `f32` food level.
    pub food_bits: u32,
    pub inventory: Vec<String>,
    pub blocks: Vec<Landmark>,
    pub entities: Vec<Landmark>,
    pub note: String,
}

/// A bounded action the model, the reflex or the operator may choose.
#[derive(Clone, Debug)]
pub struct Candidate {
    pub id: String,
    pub description: String,
    pub target: Option<Position>,
    pub duration_ms: u64,
}

/// Local outcome of one bounded navigation action.
#[derive(Clone, Debug)]
pub struct ArrivalVerdict {
    pub target: Option<Position>,
    /// Bit pattern of the measured `f64` distance; absent without a connected observation.
    pub measured_distance_bits: Option<u64>,
    /// Bit pattern of the `f64` tolerance.
    pub tolerance_bits: u64,
    pub duration_ms: u64,
    pub elapsed_ms: u64,
    pub arrived: bool,
}

/// A model (or fixture) answer.
#[derive(Clone, Debug)]
pub struct Decision {
    pub choice: String,
    /// Option identifier and the bit pattern of its `f64` probability, one entry per option:
    /// a provider answer is read so (`provider::law_answer_probabilities_form_a_map`) and a
    /// recording is accepted only so (`recording::law_accepted_recording_is_ordered_and_grounded`).
    pub probabilities: Vec<(String, u64)>,
    /// Bit pattern of the `f64` confidence.
    pub confidence_bits: Option<u64>,
    pub model: String,
    pub input_tokens: Option<u64>,
    pub output_tokens: Option<u64>,
    pub latency_ms: u64,
}

/// One recorded engine event.
#[derive(Clone, Debug)]
pub struct Event {
    pub sequence: u64,
    pub elapsed_ms: u64,
    pub kind: String,
    pub message: String,
    pub observation: Option<Observation>,
    pub candidates: Vec<Candidate>,
    pub decision: Option<Decision>,
    pub arrival: Option<ArrivalVerdict>,
}

/// A versioned session recording.
#[derive(Clone, Debug)]
pub struct Recording {
    pub schema_version: u32,
    pub id: String,
    pub settings: Settings,
    pub events: Vec<Event>,
}

/// Whether the bit pattern is a finite `f64` (the exponent is not all ones).
pub open spec fn finite_f64_bits(bits: u64) -> bool {
    (bits >> 52u64) & 0x7ffu64 != 0x7ffu64
}

/// Whether the bit pattern is an `f64` inside `0.0..=1.0`: `-0.0`, or a non-negative
/// value whose bit pattern does not exceed that of `1.0`.
pub open spec fn unit_interval_f64_bits(bits: u64) -> bool {
    bits <= 0x3ff0_0000_0000_0000u64 || bits == 0x8000_0000_0000_0000u64
}

/// Whether the bit pattern is a finite `f32`.
pub open spec fn finite_f32_bits(bits: u32) -> bool {
    (bits >> 23u32) & 0xffu32 != 0xffu32
}

pub fn is_finite_f64_bits(bits: u64) -> (r: bool)
    ensures
        r == finite_f64_bits(bits),
{
    (bits >> 52u64) & 0x7ffu64 != 0x7ffu64
}

pub fn is_unit_interval_f64_bits(bits: u64) -> (r: bool)
    ensures
        r == unit_interval_f64_bits(bits),
{
    bits <= 0x3ff0_0000_0000_0000u64 || bits == 0x8000_0000_0000_0000u64
}

pub fn is_finite_f32_bits(bits: u32) -> (r: bool)
    ensures
        r == finite_f32_bits(bits),
{
    (bits >> 23u32) & 0xffu32 != 0xffu32
}

/// Every coordinate of the position is finite.
pub open spec fn position_is_finite(p: Position) -> bool {
    finite_f64_bits(p.x_bits) && finite_f64_bits(p.y_bits) && finite_f64_bits(p.z_bits)
}

impl Position {
    pub fn is_finite(&self) -> (r: bool)
        ensures
            r == position_is_finite(*self),
    {
        is_finite_f64_bits(self.x_bits) && is_finite_f64_bits(self.y_bits)
            && is_finite_f64_bits(self.z_bits)
    }
}

} // verus!
