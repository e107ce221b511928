//! The normalized CPU record and the errors of building one.
use vstd::prelude::*;
use crate::cache::CacheTable;
use crate::vendor::Vendor;

verus! {

#[derive(Clone, Copy, Debug, PartialEq, Eq, Structural)]
pub enum ByteOrder {
    LittleEndian,
    BigEndian,
    Unknown,
}

impl ByteOrder {
    pub fn label(&self) -> (r: &'static str)
        ensures
            r@ == match *self {
                ByteOrder::LittleEndian => "Little Endian"@,
                ByteOrder::BigEndian => "Big Endian"@,
                ByteOrder::Unknown => "Unknown"@,
            },
    {
        match self {
            ByteOrder::LittleEndian => "Little Endian",
            ByteOrder::BigEndian => "Big Endian",
            ByteOrder::Unknown => "Unknown",
        }
    }
}

/// Why no record could be built.
#[derive(Debug)]
pub enum ExtractionError {
    /// The primary source could not be read; the text says why.
    SourceUnavailable(String),
    /// The source was read but named no processor at all.
    InsufficientData,
}

impl ExtractionError {
    pub fn message(&self) -> (r: String)
        ensures
            match self {
                ExtractionError::SourceUnavailable(m) => r@ == m@,
                ExtractionError::InsufficientData => r@ == "no processor information found"@,
            },
    {
        match self {
            ExtractionError::SourceUnavailable(m) => m.clone(),
            ExtractionError::InsufficientData => "no processor information found".to_string(),
        }
    }
}

/// One machine's CPU, normalized. Absent facts are `None`, never zero.
pub struct CpuInfo {
    /// The model or brand string; empty where the source names none.
    pub model: String,
    pub vendor: Vendor,
    /// The machine type that the operating system reports (`x86_64`).
    pub architecture: Option<String>,
    pub byte_order: ByteOrder,
    pub physical_cores: u64,
    pub logical_cores: u64,
    /// The clock in kilohertz: the highest that the platform reports where it
    /// reports a maximum (Linux), its base clock otherwise (macOS).
    pub frequency_khz: Option<u64>,
    pub caches: CacheTable,
    /// Instruction-set feature names, in the order of the source.
    pub flags: Vec<String>,
}

impl CpuInfo {
    pub open spec fn wf(&self) -> bool {
        &&& self.physical_cores >= 1
        &&& self.logical_cores >= self.physical_cores
    }
}

} // verus!
