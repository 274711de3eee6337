//! Versioned archive manifest metadata.
use vstd::prelude::*;

use crate::text::str_eq;

verus! {

/// Magic string stored in FSE archive manifests.
pub const FSE_ARCHIVE_MAGIC: &'static str = "FSE_ARCHIVE";

/// Current FSE archive format version.
pub const FSE_ARCHIVE_FORMAT_VERSION: u32 = 1;

/// Canonical file extension for FSE archives.
pub const FSE_ARCHIVE_FILE_EXTENSION: &'static str = ".fse";

/// Returns whether a path's extension, given without its dot, is the archive
/// extension.
pub fn is_archive_file_extension(extension: Option<&str>) -> (matches: bool)
    ensures
        matches == (extension matches Some(text) && text@ == FSE_ARCHIVE_FILE_EXTENSION@.drop_first()),
{
    proof {
        reveal_strlit(".fse");
        reveal_strlit("fse");
        assert(FSE_ARCHIVE_FILE_EXTENSION@.drop_first() =~= "fse"@);
    }
    match extension {
        Some(text) => str_eq(text, "fse"),
        None => false,
    }
}

/// Number of bytes used by one stored coordinate scalar.
pub const FSE_ARCHIVE_SCALAR_SIZE_BYTES: u32 = 4;

/// Error returned when archive manifest validation fails.
#[derive(Clone, Debug, PartialEq, Eq)]
pub enum FSEArchiveManifestError {
    /// The manifest magic string does not match the FSE archive identifier.
    InvalidMagic {
        /// Magic string found in the manifest.
        actual: String,
    },
    /// The archive format version is not supported by this runtime.
    UnsupportedFormatVersion {
        /// Version found in the manifest.
        actual: u32,
        /// Version supported by this runtime.
        expected: u32,
    },
    /// The archive file extension does not match the FSE archive extension.
    InvalidFileExtension {
        /// Extension found in the manifest.
        actual: String,
    },
    /// The scalar byte width was zero.
    InvalidScalarSize {
        /// Scalar byte width found in the manifest.
        actual: u32,
    },
    /// The manifest reported zero coordinate dimensions.
    ZeroDimensions,
    /// The manifest reported zero records.
    ZeroRecordCount,
    /// The manifest reported zero partition nodes.
    ZeroNodeCount,
    /// The root node id was outside the node range.
    MissingRootNode {
        /// Root node id found in the manifest.
        root_node_id: u64,
        /// Number of partition nodes reported by the manifest.
        node_count: u64,
    },
    /// Dataset metadata requires schema metadata.
    DatasetMetadataWithoutSchemaMetadata,
    /// Encoder metadata requires schema metadata.
    EncoderMetadataWithoutSchemaMetadata,
}

impl FSEArchiveManifestError {
    /// Returns the diagnostic message for the error.
    pub fn message(&self) -> (message: &'static str)
        ensures
            message == manifest_error_message(*self),
    {
        match self {
            FSEArchiveManifestError::InvalidMagic { .. } => "archive magic must identify FSE",
            FSEArchiveManifestError::UnsupportedFormatVersion { .. } => {
                "archive format version is not supported"
            },
            FSEArchiveManifestError::InvalidFileExtension { .. } => {
                "archive file extension must be .fse"
            },
            FSEArchiveManifestError::InvalidScalarSize { .. } => {
                "archive scalar size must be greater than zero"
            },
            FSEArchiveManifestError::ZeroDimensions => "archive dimensions must be greater than zero",
            FSEArchiveManifestError::ZeroRecordCount => {
                "archive record count must be greater than zero"
            },
            FSEArchiveManifestError::ZeroNodeCount => "archive node count must be greater than zero",
            FSEArchiveManifestError::MissingRootNode { .. } => {
                "archive root node id must exist in the node list"
            },
            FSEArchiveManifestError::DatasetMetadataWithoutSchemaMetadata => {
                "archive dataset metadata requires schema metadata"
            },
            FSEArchiveManifestError::EncoderMetadataWithoutSchemaMetadata => {
                "archive encoder metadata requires schema metadata"
            },
        }
    }
}

/// The diagnostic message of a manifest error.
pub open spec fn manifest_error_message(error: FSEArchiveManifestError) -> &'static str {
    match error {
        FSEArchiveManifestError::InvalidMagic { .. } => "archive magic must identify FSE",
        FSEArchiveManifestError::UnsupportedFormatVersion { .. } => {
            "archive format version is not supported"
        },
        FSEArchiveManifestError::InvalidFileExtension { .. } => "archive file extension must be .fse",
        FSEArchiveManifestError::InvalidScalarSize { .. } => {
            "archive scalar size must be greater than zero"
        },
        FSEArchiveManifestError::ZeroDimensions => "archive dimensions must be greater than zero",
        FSEArchiveManifestError::ZeroRecordCount => "archive record count must be greater than zero",
        FSEArchiveManifestError::ZeroNodeCount => "archive node count must be greater than zero",
        FSEArchiveManifestError::MissingRootNode { .. } => {
            "archive root node id must exist in the node list"
        },
        FSEArchiveManifestError::DatasetMetadataWithoutSchemaMetadata => {
            "archive dataset metadata requires schema metadata"
        },
        FSEArchiveManifestError::EncoderMetadataWithoutSchemaMetadata => {
            "archive encoder metadata requires schema metadata"
        },
    }
}

/// Optional logical sections recorded in an FSE archive.
///
/// The section flags describe which metadata blocks are present alongside the
/// partition hierarchy and residual payloads.
#[derive(Clone, Copy, Debug, PartialEq, Eq, Structural)]
pub struct FSEArchiveSections {
    /// Whether dataset metadata is present.
    pub dataset_metadata: bool,
    /// Whether schema metadata is present.
    pub schema_metadata: bool,
    /// Whether encoder metadata is present.
    pub encoder_metadata: bool,
}

impl Default for FSEArchiveSections {
    fn default() -> (sections: Self)
        ensures
            !sections.dataset_metadata,
            !sections.schema_metadata,
            !sections.encoder_metadata,
    {
        FSEArchiveSections { dataset_metadata: false, schema_metadata: false, encoder_metadata: false }
    }
}

impl FSEArchiveSections {
    /// Creates an empty section set.
    pub fn empty() -> (sections: Self)
        ensures
            !sections.dataset_metadata,
            !sections.schema_metadata,
            !sections.encoder_metadata,
    {
        FSEArchiveSections { dataset_metadata: false, schema_metadata: false, encoder_metadata: false }
    }

    /// Creates a section set for typed encoded datasets.
    pub fn typed() -> (sections: Self)
        ensures
            sections.dataset_metadata,
            sections.schema_metadata,
            sections.encoder_metadata,
    {
        FSEArchiveSections { dataset_metadata: true, schema_metadata: true, encoder_metadata: true }
    }
}

/// Versioned metadata for an FSE archive.
///
/// `FSEArchiveManifest` records the stable metadata needed before durable
/// archive save and load routines can interpret hierarchy and residual data.
#[derive(Clone, Debug, PartialEq, Eq)]
pub struct FSEArchiveManifest {
    /// Archive magic string.
    pub magic: String,
    /// Archive format version.
    pub format_version: u32,
    /// Canonical archive file extension.
    pub file_extension: String,
    /// Number of bytes used by one scalar value.
    pub scalar_size_bytes: u32,
    /// Coordinate dimensionality of the persisted index.
    pub dimensions: u32,
    /// Number of logical records represented by the archive.
    pub record_count: u64,
    /// Number of partition nodes in the persisted hierarchy.
    pub node_count: u64,
    /// Root node id in the persisted hierarchy.
    pub root_node_id: u64,
    /// Optional logical metadata sections stored with the archive.
    pub sections: FSEArchiveSections,
}

/// The first failing check among the manifest's numeric and section fields.
pub open spec fn manifest_counts_error(
    scalar_size_bytes: u32,
    dimensions: u32,
    record_count: u64,
    node_count: u64,
    root_node_id: u64,
    sections: FSEArchiveSections,
) -> Option<FSEArchiveManifestError> {
    if scalar_size_bytes == 0 {
        Some(FSEArchiveManifestError::InvalidScalarSize { actual: scalar_size_bytes })
    } else if dimensions == 0 {
        Some(FSEArchiveManifestError::ZeroDimensions)
    } else if record_count == 0 {
        Some(FSEArchiveManifestError::ZeroRecordCount)
    } else if node_count == 0 {
        Some(FSEArchiveManifestError::ZeroNodeCount)
    } else if root_node_id >= node_count {
        Some(FSEArchiveManifestError::MissingRootNode { root_node_id, node_count })
    } else if sections.dataset_metadata && !sections.schema_metadata {
        Some(FSEArchiveManifestError::DatasetMetadataWithoutSchemaMetadata)
    } else if sections.encoder_metadata && !sections.schema_metadata {
        Some(FSEArchiveManifestError::EncoderMetadataWithoutSchemaMetadata)
    } else {
        None
    }
}

/// The first failing manifest check, or `None` when the manifest is valid.
pub open spec fn manifest_error(manifest: FSEArchiveManifest) -> Option<FSEArchiveManifestError> {
    if manifest.magic@ != FSE_ARCHIVE_MAGIC@ {
        Some(FSEArchiveManifestError::InvalidMagic { actual: manifest.magic })
    } else if manifest.format_version != 1 {
        Some(
            FSEArchiveManifestError::UnsupportedFormatVersion {
                actual: manifest.format_version,
                expected: 1,
            },
        )
    } else if manifest.file_extension@ != FSE_ARCHIVE_FILE_EXTENSION@ {
        Some(FSEArchiveManifestError::InvalidFileExtension { actual: manifest.file_extension })
    } else {
        manifest_counts_error(
            manifest.scalar_size_bytes,
            manifest.dimensions,
            manifest.record_count,
            manifest.node_count,
            manifest.root_node_id,
            manifest.sections,
        )
    }
}

/// The manifest passes validation.
pub open spec fn manifest_is_valid(manifest: FSEArchiveManifest) -> bool {
    manifest_error(manifest) is None
}

/// The manifest carries the given counts and sections, with the current format's constants.
pub open spec fn manifest_has_fields(
    manifest: FSEArchiveManifest,
    dimensions: u32,
    record_count: u64,
    node_count: u64,
    root_node_id: u64,
    sections: FSEArchiveSections,
) -> bool {
    &&& manifest.magic@ == FSE_ARCHIVE_MAGIC@
    &&& manifest.format_version == 1
    &&& manifest.file_extension@ == FSE_ARCHIVE_FILE_EXTENSION@
    &&& manifest.scalar_size_bytes == 4
    &&& manifest.dimensions == dimensions
    &&& manifest.record_count == record_count
    &&& manifest.node_count == node_count
    &&& manifest.root_node_id == root_node_id
    &&& manifest.sections == sections
}

fn owned_string(value: &str) -> (owned: String)
    ensures
        owned@ == value@,
{
    value.to_owned()
}

/// The arguments from which `try_new` builds a manifest, and the only ones on
/// which `new` may be called.
pub open spec fn manifest_arguments_accepted(
    dimensions: u32,
    record_count: u64,
    node_count: u64,
    root_node_id: u64,
    sections: FSEArchiveSections,
) -> bool {
    manifest_counts_error(4, dimensions, record_count, node_count, root_node_id, sections) is None
}

impl FSEArchiveManifest {
    /// Creates a manifest for the current archive format.
    ///
    /// The counts and sections must pass validation: `new` accepts exactly the
    /// arguments on which `try_new` succeeds, and builds the same manifest.
    pub fn new(
        dimensions: u32,
        record_count: u64,
        node_count: u64,
        root_node_id: u64,
        sections: FSEArchiveSections,
    ) -> (manifest: Self)
        requires
            manifest_arguments_accepted(dimensions, record_count, node_count, root_node_id, sections),
        ensures
            manifest_has_fields(manifest, dimensions, record_count, node_count, root_node_id, sections),
            manifest_is_valid(manifest),
    {
        match Self::try_new(dimensions, record_count, node_count, root_node_id, sections) {
            Ok(manifest) => manifest,
            Err(_) => {
                proof {
                    assert(false);
                }
                FSEArchiveManifest {
                    magic: owned_string(FSE_ARCHIVE_MAGIC),
                    format_version: 0,
                    file_extension: owned_string(FSE_ARCHIVE_FILE_EXTENSION),
                    scalar_size_bytes: 0,
                    dimensions,
                    record_count,
                    node_count,
                    root_node_id,
                    sections,
                }
            },
        }
    }

    /// Creates a manifest and returns an error when metadata is invalid.
    pub fn try_new(
        dimensions: u32,
        record_count: u64,
        node_count: u64,
        root_node_id: u64,
        sections: FSEArchiveSections,
    ) -> (result: Result<Self, FSEArchiveManifestError>)
        ensures
            result is Ok <==> manifest_arguments_accepted(
                dimensions,
                record_count,
                node_count,
                root_node_id,
                sections,
            ),
            match manifest_counts_error(
                4,
                dimensions,
                record_count,
                node_count,
                root_node_id,
                sections,
            ) {
                None => result matches Ok(manifest) && manifest_has_fields(
                    manifest,
                    dimensions,
                    record_count,
                    node_count,
                    root_node_id,
                    sections,
                ) && manifest_is_valid(manifest),
                Some(error) => result == Err::<Self, FSEArchiveManifestError>(error),
            },
    {
        let manifest = FSEArchiveManifest {
            magic: owned_string(FSE_ARCHIVE_MAGIC),
            format_version: FSE_ARCHIVE_FORMAT_VERSION,
            file_extension: owned_string(FSE_ARCHIVE_FILE_EXTENSION),
            scalar_size_bytes: FSE_ARCHIVE_SCALAR_SIZE_BYTES,
            dimensions,
            record_count,
            node_count,
            root_node_id,
            sections,
        };
        match manifest.validate() {
            Ok(()) => Ok(manifest),
            Err(error) => Err(error),
        }
    }

    /// Validates manifest metadata.
    pub fn validate(&self) -> (result: Result<(), FSEArchiveManifestError>)
        ensures
            match manifest_error(*self) {
                None => result is Ok,
                Some(error) => result == Err::<(), FSEArchiveManifestError>(error),
            },
    {
        if self.magic != owned_string(FSE_ARCHIVE_MAGIC) {
            return Err(FSEArchiveManifestError::InvalidMagic { actual: self.magic.clone() });
        }
        if self.format_version != FSE_ARCHIVE_FORMAT_VERSION {
            return Err(
                FSEArchiveManifestError::UnsupportedFormatVersion {
                    actual: self.format_version,
                    expected: FSE_ARCHIVE_FORMAT_VERSION,
                },
            );
        }
        if self.file_extension != owned_string(FSE_ARCHIVE_FILE_EXTENSION) {
            return Err(
                FSEArchiveManifestError::InvalidFileExtension { actual: self.file_extension.clone() },
            );
        }
        if self.scalar_size_bytes == 0 {
            return Err(FSEArchiveManifestError::InvalidScalarSize { actual: self.scalar_size_bytes });
        }
        if self.dimensions == 0 {
            return Err(FSEArchiveManifestError::ZeroDimensions);
        }
        if self.record_count == 0 {
            return Err(FSEArchiveManifestError::ZeroRecordCount);
        }
        if self.node_count == 0 {
            return Err(FSEArchiveManifestError::ZeroNodeCount);
        }
        if self.root_node_id >= self.node_count {
            return Err(
                FSEArchiveManifestError::MissingRootNode {
                    root_node_id: self.root_node_id,
                    node_count: self.node_count,
                },
            );
        }
        if self.sections.dataset_metadata && !self.sections.schema_metadata {
            return Err(FSEArchiveManifestError::DatasetMetadataWithoutSchemaMetadata);
        }
        if self.sections.encoder_metadata && !self.sections.schema_metadata {
            return Err(FSEArchiveManifestError::EncoderMetadataWithoutSchemaMetadata);
        }
        Ok(())
    }
}

/// A manifest that `try_new` accepts also passes `validate`, and `try_new`
/// accepts exactly the counts and sections on which the numeric checks pass.
pub proof fn lemma_try_new_manifest_validates(
    dimensions: u32,
    record_count: u64,
    node_count: u64,
    root_node_id: u64,
    sections: FSEArchiveSections,
    manifest: FSEArchiveManifest,
)
    requires
        manifest_has_fields(manifest, dimensions, record_count, node_count, root_node_id, sections),
    ensures
        manifest_is_valid(manifest) <==> manifest_counts_error(
            4,
            dimensions,
            record_count,
            node_count,
            root_node_id,
            sections,
        ) is None,
{
}

/// Two manifests that carry the fields given by the same arguments agree in
/// every field. Both `new` and a successful `try_new` ensure those fields, so
/// `new` builds the manifest that `try_new` returns.
pub proof fn lemma_new_builds_what_try_new_builds(
    built: FSEArchiveManifest,
    tried: FSEArchiveManifest,
    dimensions: u32,
    record_count: u64,
    node_count: u64,
    root_node_id: u64,
    sections: FSEArchiveSections,
)
    requires
        manifest_has_fields(built, dimensions, record_count, node_count, root_node_id, sections),
        manifest_has_fields(tried, dimensions, record_count, node_count, root_node_id, sections),
    ensures
        built.magic@ == tried.magic@,
        built.format_version == tried.format_version,
        built.file_extension@ == tried.file_extension@,
        built.scalar_size_bytes == tried.scalar_size_bytes,
        built.dimensions == tried.dimensions,
        built.record_count == tried.record_count,
        built.node_count == tried.node_count,
        built.root_node_id == tried.root_node_id,
        built.sections == tried.sections,
{
}

} // verus!
