//! Local dataset bookkeeping entities: index offsets, headers, training
//! data and its metadata, and the dataset bill of materials.

use vstd::prelude::*;

verus! {

/// The offsets of the sections of a stored dataset file.
#[derive(Debug)]
pub struct MDAIndex {
    pub header_offset: u64,
    pub train_data_offset: u64,
    pub annotations_offset: Vec<AnnoOffset>,
}

/// The offsets of one annotation group, by identifier.
#[derive(Debug, Clone)]
pub struct AnnoOffset {
    pub id: String,
    pub header_offset: u64,
    pub entries_offset: u64,
}

impl AnnoOffset {
    /// A fresh annotation offset for an identifier, both offsets zero.
    pub fn new(id: &str) -> (r: AnnoOffset)
        ensures
            r.id@ == id@,
            r.header_offset == 0,
            r.entries_offset == 0,
    {
        AnnoOffset { id: id.to_owned(), header_offset: 0, entries_offset: 0 }
    }
}

/// The header of a stored dataset file.
#[derive(Debug)]
pub struct MDAHeader {
    pub tags: Vec<String>,
    pub train_data: TrainData,
}

/// The index entry for the training data section.
#[derive(Debug)]
pub struct TrainData {
    pub data_type: String,
    pub metadata: String,
}

/// Training data, by kind.
#[derive(Debug)]
pub enum TrainingData {
    Text(String),
    Image(Vec<u8>),
    Video(Vec<u8>),
    Audio(Vec<u8>),
}

/// The kind of a piece of training data.
#[derive(Debug, Clone, Copy, PartialEq, Eq, Structural)]
pub enum DataType {
    Text,
    Image,
    Video,
    Audio,
}

/// Metadata of an image sample.
#[derive(Debug)]
pub struct ImageMetaData {
    pub size: (u32, u32),
    pub channel_count: u8,
    pub color_space: String,
}

/// Metadata of a text sample.
#[derive(Debug)]
pub struct TextMetaData {
    pub length: usize,
    pub encoding: String,
    pub vocabulary_size: usize,
}

/// The bill of materials of a dataset: provenance, licensing, and
/// review findings.
pub struct AIBOM {
    pub name: String,
    pub location: String,
    pub license_location: String,
    pub content_type: String,
    pub size: u32,
    pub intended_use: String,
    pub checksum: Vec<u8>,
    pub have_known_biases: bool,
    pub originator: Vec<String>,
    pub data_collection_process: String,
    pub concluded_license: String,
    pub declared_license: String,
    pub is_sensitive_personal_information: bool,
    pub rejection_notes: String,
    pub have_offensive_content: bool,
    pub topics: String,
}

} // verus!
