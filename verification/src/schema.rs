//! The configuration and the protocol messages exchanged with the peer
//! controllers. Real-valued fields are held as IEEE-754 single-precision bit
//! patterns, so that every value here is plain data.

use crate::text::decimal;
use crate::text::decimal_string;
use vstd::prelude::*;
use vstd::string::*;

verus! {

#[derive(Debug, Clone, PartialEq, Eq)]
pub struct DirPath {
    pub base_patterns: String,
    pub flatness_corr_patterns: String,
}

#[derive(Debug, Clone, PartialEq, Eq)]
pub struct Microscope {
    pub serial_nr: String,
}

#[derive(Debug, Clone, PartialEq, Eq)]
pub struct MqttConfig {
    pub broker_ip: String,
    pub port: u16,
}

impl MqttConfig {
    /// The address of the broker: `tcp://`, the host, a colon and the port in
    /// decimal.
    pub open spec fn spec_server_uri(&self) -> Seq<char> {
        "tcp://"@ + self.broker_ip@ + ":"@ + decimal(self.port as nat)
    }

    pub fn server_uri(&self) -> (uri: String)
        ensures
            uri@ == self.spec_server_uri(),
    {
        let mut uri: String = String::from_str("tcp://");
        uri.append(self.broker_ip.as_str());
        uri.append(":");
        let port: String = decimal_string(self.port as u64);
        uri.append(port.as_str());
        uri
    }
}

#[derive(Debug, Clone, Copy, PartialEq, Eq)]
pub struct ScreenConfig {
    pub size: (u32, u32),
    pub fullscreen: bool,
}

/// The calibration table: `scale_factor_bits[i]` is the bit pattern of the
/// scale factor that belongs to `known_wavelengths[i]`.
#[derive(Debug, Clone, PartialEq, Eq)]
pub struct SLMCalibScaling {
    pub known_wavelengths: Vec<u32>,
    pub scale_factor_bits: Vec<u32>,
}

#[derive(Debug, Clone, Copy, PartialEq, Eq)]
pub struct PatternComputationDebug {
    pub save_computed_to_image: bool,
}

#[derive(Debug, Clone, PartialEq, Eq)]
pub struct PatternComputationConfig {
    pub slm_calib_scaling: SLMCalibScaling,
    pub add_flatness_correction: bool,
    pub debug: Option<PatternComputationDebug>,
}

impl PatternComputationConfig {
    /// Whether the computed pattern is also to be kept as an image: only
    /// where a debug section is present and asks for it.
    pub fn saves_computed_image(&self) -> (save: bool)
        ensures
            save == (self.debug matches Some(d) && d.save_computed_to_image),
    {
        match self.debug {
            Some(d) => d.save_computed_to_image,
            None => false,
        }
    }
}

#[derive(Debug, Clone, Copy, PartialEq, Eq)]
pub enum LogLevel {
    Debug,
    Info,
    Warning,
    Error,
    Critical,
}

#[derive(Debug, Clone, Copy, PartialEq, Eq)]
pub struct Logging {
    pub log_level: LogLevel,
}

#[derive(Debug, Clone, PartialEq, Eq)]
pub struct DefaultState {
    pub fresnel: u32,
    pub wavelength: u32,
    pub pattern: PatternParams,
}

#[derive(Debug, Clone, PartialEq, Eq)]
pub struct Config {
    pub microscope: Microscope,
    pub dir_path: DirPath,
    pub mqtt: MqttConfig,
    pub screen: ScreenConfig,
    pub compute_pattern: PatternComputationConfig,
    pub image_file_extensions: Vec<String>,
    pub logging: Logging,
    pub defaults: DefaultState,
}

impl Config {
    /// The root topic: the serial number of the microscope.
    pub fn main_topic(&self) -> (topic: &str)
        ensures
            topic@ == self.microscope.serial_nr@,
    {
        self.microscope.serial_nr.as_str()
    }
}

#[derive(Debug, Clone, Copy, PartialEq, Eq)]
pub enum MessageType {
    Log,
    Device,
    Status,
}

#[derive(Debug, Clone, PartialEq, Eq)]
pub struct LaserState {
    pub name: String,
    pub state: u32,
    pub wavelength: u32,
    pub intensity: u32,
}

#[derive(Debug, Clone, PartialEq, Eq)]
pub enum LaserCommand {
    Get,
    AvailablePatterns,
    SetLasers { lasers: Vec<LaserState> },
}

#[derive(Debug, Clone, PartialEq, Eq)]
pub struct AimState {
    pub pattern: PatternParams,
    pub fresnel: u32,
}

/// A delta to add to the stored correction of one wavelength: a base64 text
/// of little-endian single-precision samples, row by row, and their shape.
#[derive(Debug, Clone, PartialEq, Eq)]
pub struct CorrectionPatternDeltas {
    pub wavelength: u32,
    pub imagedata: String,
    pub shape_xy: [usize; 2],
}

#[derive(Debug, Clone, PartialEq, Eq)]
pub struct APatternProp {
    pub values: Vec<String>,
}

/// One pattern family: its property names in the order in which they were
/// first seen, and beside each name the values observed for it.
#[derive(Debug, Clone, PartialEq, Eq)]
pub struct APattern {
    pub properties: Vec<String>,
    pub property_values: Vec<APatternProp>,
}

/// The catalog: the family names in lexical order, and beside each name its
/// family.
#[derive(Debug, Clone, PartialEq, Eq)]
pub struct AvailablePatterns {
    pub pattern_names: Vec<String>,
    pub patterns: Vec<APattern>,
}

#[derive(Debug, Clone, PartialEq, Eq)]
pub enum AimCommand {
    Get,
    GetAllPatterns,
    SetAim(AimState),
    PreStack(AimState),
    SetPattern { pattern: PatternParams },
    SetFresnel { value: u32 },
    Response { reply: String },
    UploadImage { name: String, imagedata: String },
    DeleteImage { name: String },
    Disconnect,
    SetCorrectionPatternDeltas(CorrectionPatternDeltas),
    SetCorrectionPatternDeltasResponse { wavelength: u32, success: bool },
    AvailablePatterns { patterns: AvailablePatterns },
    CurrentState { wavelength: u32, fresnel: u32, pattern: PatternParams },
    Reboot,
}

#[derive(Debug, Clone, Copy, PartialEq, Eq)]
pub enum EmbeddedCommand {
    InitDone,
    SetEmbedded,
}

#[derive(Debug, Clone, PartialEq, Eq)]
pub enum MessageData {
    Embedded(EmbeddedCommand),
    Lasers(LaserCommand),
    Aim(AimCommand),
}

#[derive(Debug, Clone, PartialEq, Eq)]
pub struct Message {
    pub m_type: MessageType,
    pub data: MessageData,
}

/// A synthetic spot. Each field is the bit pattern of a single-precision
/// number: the centre, the diameter, the gradient inside the disk and the
/// gradient outside it.
#[derive(Debug, Clone, Copy, PartialEq, Eq)]
pub struct SpotPattern {
    pub position_xy: (u32, u32),
    pub diameter: u32,
    pub gradient_xy: (u32, u32),
    pub background_gradient_xy: (u32, u32),
}

#[derive(Debug, Clone, PartialEq, Eq)]
pub struct CustomPattern {
    pub filename: String,
}

/// A file-based pattern: the family name and the chosen value of each
/// property, in the order in which the selector declares them.
#[derive(Debug, Clone, PartialEq, Eq)]
pub struct BasePattern {
    pub filename: String,
    pub properties: Vec<(String, String)>,
}

/// Why a map does not name a file-based pattern.
#[derive(Debug, Clone, Copy, PartialEq, Eq)]
pub enum BasePatternError {
    /// The map has no entry.
    Empty,
    /// The map has more than one entry.
    Ambiguous,
}

impl BasePattern {
    /// The pattern that a map names: a map of exactly one entry, from the
    /// family name to the properties with their values.
    pub fn from_entries(mut entries: Vec<(String, Vec<(String, String)>)>) -> (pattern: Result<
        BasePattern,
        BasePatternError,
    >)
        ensures
            entries@.len() == 0 ==> pattern == Err::<BasePattern, BasePatternError>(
                BasePatternError::Empty,
            ),
            entries@.len() > 1 ==> pattern == Err::<BasePattern, BasePatternError>(
                BasePatternError::Ambiguous,
            ),
            entries@.len() == 1 ==> pattern == Ok::<BasePattern, BasePatternError>(
                BasePattern { filename: entries@[0].0, properties: entries@[0].1 },
            ),
    {
        if entries.len() > 1 {
            return Err(BasePatternError::Ambiguous);
        }
        match entries.pop() {
            None => Err(BasePatternError::Empty),
            Some(entry) => Ok(BasePattern { filename: entry.0, properties: entry.1 }),
        }
    }
}

#[derive(Debug, Clone, PartialEq, Eq)]
pub enum PatternParams {
    Spot { spot: SpotPattern },
    Custom { custom: CustomPattern },
    Base { base: BasePattern },
}

/// A topic below which subtopics are named.
pub trait Subtopic {
    /// The text of the topic itself.
    spec fn root(&self) -> Seq<char>;

    /// The topic, a slash and `topic`.
    fn subtopic(&self, topic: &str) -> (full: String)
        ensures
            full@ == self.root() + "/"@ + topic@,
    ;
}

impl Subtopic for &str {
    open spec fn root(&self) -> Seq<char> {
        self@
    }

    fn subtopic(&self, topic: &str) -> (full: String) {
        let mut full: String = String::from_str(*self);
        full.append("/");
        full.append(topic);
        full
    }
}

} // verus!
