//! Persistence components for FSE archives.
pub mod archive_file;
pub mod payload;
pub mod manifest;
pub mod manifest_codec;
pub mod operations;
pub mod tombstone;
pub mod tombstone_codec;
pub mod tombstone_file;
pub mod snapshot;
pub mod archive_codec;
pub mod row_mapping;
pub mod record_batch;
pub mod record_batch_codec;
pub mod row_mapped_codec;
pub mod query_index_snapshot;
pub mod query_index_codec;
pub mod footprint;
pub mod index_archive_errors;
pub mod row_mapped_file;
pub mod record_batch_file;
pub mod query_index_file;
pub mod maintenance;
pub mod batch_section;
pub mod compaction;
pub mod query_index_layout;
pub mod row_mapped_layout;
