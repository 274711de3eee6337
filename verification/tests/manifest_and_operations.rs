use fse_rust::persistence::maintenance::typed_query_index_archive_maintenance_step;
use fse_rust::persistence::maintenance::FSETypedQueryIndexArchiveMaintenanceStep as Step;
use fse_rust::persistence::snapshot::{
    residual_stored_rows, validate_partition_node_layout, validate_partition_node_rows, FSEArchiveSnapshotError,
    FSEPartitionNodeShape,
};
use fse_rust::persistence::footprint::{
    archive_payload_header_byte_count, typed_query_index_section_framing_byte_count,
    FSETypedQueryIndexArchiveFootprint, FSETypedQueryIndexArchiveFootprintError,
    FSETypedQueryIndexArchiveSectionFootprint,
};
use fse_rust::persistence::maintenance::{
    evaluate_typed_query_index_archive_maintenance, FSETypedQueryIndexArchiveMaintenanceError,
    FSETypedQueryIndexArchiveMaintenanceStatus,
};
use fse_rust::persistence::manifest::{
    is_archive_file_extension, FSEArchiveManifest, FSEArchiveManifestError, FSEArchiveSections,
    FSE_ARCHIVE_FILE_EXTENSION, FSE_ARCHIVE_FORMAT_VERSION, FSE_ARCHIVE_MAGIC,
};
use fse_rust::persistence::operations::{
    FSEArchiveAppendOperationMetadata, FSEArchiveAppendOperationMetadataError,
    FSEArchiveCompactionOperationMetadata, FSEArchiveCompactionOperationMetadataError,
    FSEArchiveMaintenanceAction, FSEArchiveMaintenanceError, FSEArchiveMaintenanceInput,
    FSEArchiveMaintenancePolicy, FSEArchiveMaintenanceReason, FSEArchiveRebuildPlanMetadata,
    FSEArchiveRebuildPlanMetadataError, FSEArchiveRebuildReason,
};
use fse_rust::persistence::payload::FSEArchivePayloadKind;

#[test]
fn manifest_constants() {
    assert_eq!(FSE_ARCHIVE_MAGIC, "FSE_ARCHIVE");
    assert_eq!(FSE_ARCHIVE_FORMAT_VERSION, 1);
    assert_eq!(FSE_ARCHIVE_FILE_EXTENSION, ".fse");
}

#[test]
fn archive_extension_is_fse_without_dot() {
    assert!(is_archive_file_extension(Some("fse")));
    assert!(!is_archive_file_extension(Some(".fse")));
    assert!(!is_archive_file_extension(Some("FSE")));
    assert!(!is_archive_file_extension(Some("bin")));
    assert!(!is_archive_file_extension(None));
}

#[test]
fn manifest_try_new_fills_format_constants() {
    let manifest = FSEArchiveManifest::try_new(3, 10, 4, 0, FSEArchiveSections::typed()).unwrap();
    assert_eq!(manifest.magic, "FSE_ARCHIVE");
    assert_eq!(manifest.format_version, 1);
    assert_eq!(manifest.file_extension, ".fse");
    assert_eq!(manifest.scalar_size_bytes, 4);
    assert_eq!(manifest.dimensions, 3);
    assert_eq!(manifest.record_count, 10);
    assert_eq!(manifest.node_count, 4);
    assert_eq!(manifest.root_node_id, 0);
    assert_eq!(manifest.validate(), Ok(()));
}

#[test]
fn manifest_validation_errors() {
    let empty = FSEArchiveSections::empty();
    assert_eq!(
        FSEArchiveManifest::try_new(0, 10, 4, 0, empty),
        Err(FSEArchiveManifestError::ZeroDimensions)
    );
    assert_eq!(
        FSEArchiveManifest::try_new(2, 0, 4, 0, empty),
        Err(FSEArchiveManifestError::ZeroRecordCount)
    );
    assert_eq!(
        FSEArchiveManifest::try_new(2, 1, 0, 0, empty),
        Err(FSEArchiveManifestError::ZeroNodeCount)
    );
    assert_eq!(
        FSEArchiveManifest::try_new(2, 1, 4, 4, empty),
        Err(FSEArchiveManifestError::MissingRootNode { root_node_id: 4, node_count: 4 })
    );
    let dataset_only = FSEArchiveSections {
        dataset_metadata: true,
        schema_metadata: false,
        encoder_metadata: false,
    };
    assert_eq!(
        FSEArchiveManifest::try_new(2, 1, 1, 0, dataset_only),
        Err(FSEArchiveManifestError::DatasetMetadataWithoutSchemaMetadata)
    );
    let encoder_only = FSEArchiveSections {
        dataset_metadata: false,
        schema_metadata: false,
        encoder_metadata: true,
    };
    assert_eq!(
        FSEArchiveManifest::try_new(2, 1, 1, 0, encoder_only),
        Err(FSEArchiveManifestError::EncoderMetadataWithoutSchemaMetadata)
    );
    let mut manifest = FSEArchiveManifest::new(2, 1, 1, 0, empty);
    manifest.magic = "OTHER".to_string();
    assert_eq!(
        manifest.validate(),
        Err(FSEArchiveManifestError::InvalidMagic { actual: "OTHER".to_string() })
    );
    let mut manifest = FSEArchiveManifest::new(2, 1, 1, 0, empty);
    manifest.format_version = 2;
    assert_eq!(
        manifest.validate(),
        Err(FSEArchiveManifestError::UnsupportedFormatVersion { actual: 2, expected: 1 })
    );
    let mut manifest = FSEArchiveManifest::new(2, 1, 1, 0, empty);
    manifest.file_extension = ".bin".to_string();
    assert_eq!(
        manifest.validate(),
        Err(FSEArchiveManifestError::InvalidFileExtension { actual: ".bin".to_string() })
    );
    let mut manifest = FSEArchiveManifest::new(2, 1, 1, 0, empty);
    manifest.scalar_size_bytes = 0;
    assert_eq!(manifest.validate(), Err(FSEArchiveManifestError::InvalidScalarSize { actual: 0 }));
}

#[test]
fn append_metadata_counts() {
    let append =
        FSEArchiveAppendOperationMetadata::try_new(FSEArchivePayloadKind::TypedQueryIndex, 10, 5)
            .unwrap();
    assert_eq!(append.resulting_record_count, 15);
    assert_eq!(append.validate(), Ok(()));
    assert_eq!(
        FSEArchiveAppendOperationMetadata::try_new(FSEArchivePayloadKind::TypedQueryIndex, 0, 5),
        Err(FSEArchiveAppendOperationMetadataError::ZeroBaseRecordCount)
    );
    assert_eq!(
        FSEArchiveAppendOperationMetadata::try_new(FSEArchivePayloadKind::TypedQueryIndex, 5, 0),
        Err(FSEArchiveAppendOperationMetadataError::ZeroAppendedRecordCount)
    );
    assert_eq!(
        FSEArchiveAppendOperationMetadata::try_new(
            FSEArchivePayloadKind::TypedQueryIndex,
            u64::MAX,
            1
        ),
        Err(FSEArchiveAppendOperationMetadataError::ResultingRecordCountOverflow {
            base_record_count: u64::MAX,
            appended_record_count: 1,
        })
    );
    let mut wrong = append;
    wrong.resulting_record_count = 14;
    assert_eq!(
        wrong.validate(),
        Err(FSEArchiveAppendOperationMetadataError::ResultingRecordCountMismatch {
            base_record_count: 10,
            appended_record_count: 5,
            resulting_record_count: 14,
            expected_resulting_record_count: 15,
        })
    );
}

#[test]
fn append_metadata_from_manifest_uses_its_record_count() {
    let manifest = FSEArchiveManifest::try_new(2, 7, 1, 0, FSEArchiveSections::typed()).unwrap();
    let append = FSEArchiveAppendOperationMetadata::from_manifest(
        FSEArchivePayloadKind::TypedQueryIndex,
        &manifest,
        3,
    )
    .unwrap();
    assert_eq!(append.base_record_count, 7);
    assert_eq!(append.resulting_record_count, 10);
}

#[test]
fn compaction_metadata_counts() {
    let compaction = FSEArchiveCompactionOperationMetadata::try_new(
        FSEArchivePayloadKind::TypedQueryIndex,
        10,
        4,
        3,
    )
    .unwrap();
    assert_eq!(compaction.retained_record_count, 7);
    assert_eq!(
        FSEArchiveCompactionOperationMetadata::try_new(FSEArchivePayloadKind::Index, 0, 4, 0),
        Err(FSEArchiveCompactionOperationMetadataError::ZeroBaseRecordCount)
    );
    assert_eq!(
        FSEArchiveCompactionOperationMetadata::try_new(FSEArchivePayloadKind::Index, 4, 0, 0),
        Err(FSEArchiveCompactionOperationMetadataError::ZeroTombstoneCount)
    );
    assert_eq!(
        FSEArchiveCompactionOperationMetadata::try_new(FSEArchivePayloadKind::Index, 4, 9, 5),
        Err(FSEArchiveCompactionOperationMetadataError::RemovedRecordCountExceedsBase {
            base_record_count: 4,
            removed_record_count: 5,
        })
    );
    assert_eq!(
        FSEArchiveCompactionOperationMetadata::try_new(FSEArchivePayloadKind::Index, 4, 9, 4),
        Err(FSEArchiveCompactionOperationMetadataError::EmptyRetainedRecordSet {
            base_record_count: 4,
            removed_record_count: 4,
        })
    );
}

#[test]
fn rebuild_plans_follow_their_operation() {
    let append =
        FSEArchiveAppendOperationMetadata::try_new(FSEArchivePayloadKind::TypedQueryIndex, 10, 5)
            .unwrap();
    let plan = FSEArchiveRebuildPlanMetadata::for_append(append).unwrap();
    assert_eq!(plan.reason, FSEArchiveRebuildReason::Append);
    assert_eq!(plan.payload_kind, FSEArchivePayloadKind::TypedQueryIndex);
    assert!(plan.requires_full_archive_rebuild);
    assert_eq!(plan.resulting_record_count, 15);

    let compaction = FSEArchiveCompactionOperationMetadata::try_new(
        FSEArchivePayloadKind::TypedQueryIndex,
        10,
        4,
        3,
    )
    .unwrap();
    let plan = FSEArchiveRebuildPlanMetadata::for_compaction(compaction).unwrap();
    assert_eq!(plan.reason, FSEArchiveRebuildReason::Compaction);
    assert_eq!(plan.resulting_record_count, 7);

    let mut wrong = plan;
    wrong.reason = FSEArchiveRebuildReason::Append;
    assert_eq!(
        wrong.validate(),
        Err(FSEArchiveRebuildPlanMetadataError::ReasonMismatch {
            plan_reason: FSEArchiveRebuildReason::Append,
            operation_reason: FSEArchiveRebuildReason::Compaction,
        })
    );
    let mut wrong = plan;
    wrong.payload_kind = FSEArchivePayloadKind::Index;
    assert_eq!(
        wrong.validate(),
        Err(FSEArchiveRebuildPlanMetadataError::PayloadKindMismatch {
            plan_payload_kind: FSEArchivePayloadKind::Index,
            operation_payload_kind: FSEArchivePayloadKind::TypedQueryIndex,
        })
    );
    let mut wrong = plan;
    wrong.resulting_record_count = 8;
    assert_eq!(
        wrong.validate(),
        Err(FSEArchiveRebuildPlanMetadataError::ResultingRecordCountMismatch {
            plan_resulting_record_count: 8,
            operation_resulting_record_count: 7,
        })
    );
    let mut wrong = plan;
    wrong.requires_full_archive_rebuild = false;
    assert_eq!(
        wrong.validate(),
        Err(FSEArchiveRebuildPlanMetadataError::FullArchiveRebuildRequired {
            reason: FSEArchiveRebuildReason::Compaction,
        })
    );
}

#[test]
fn default_maintenance_policy() {
    let policy = FSEArchiveMaintenancePolicy::default();
    assert_eq!(policy.append_rebuild_record_count_threshold, 1024);
    assert_eq!(policy.compaction_tombstone_count_threshold, 1024);
    assert_eq!(policy.compaction_tombstone_ratio_threshold_basis_points, 2500);
    assert_eq!(
        FSEArchiveMaintenancePolicy::try_new(0, 1, 1),
        Err(FSEArchiveMaintenanceError::ZeroAppendRebuildRecordCountThreshold)
    );
    assert_eq!(
        FSEArchiveMaintenancePolicy::try_new(1, 0, 1),
        Err(FSEArchiveMaintenanceError::ZeroCompactionTombstoneCountThreshold)
    );
    assert_eq!(
        FSEArchiveMaintenancePolicy::try_new(1, 1, 0),
        Err(FSEArchiveMaintenanceError::ZeroCompactionTombstoneRatioThreshold)
    );
}

#[test]
fn maintenance_decisions() {
    let policy = FSEArchiveMaintenancePolicy::try_new(100, 50, 2500).unwrap();
    let decide = |base: u64, pending: u64, tombstones: u64| {
        policy.evaluate(FSEArchiveMaintenanceInput::try_new(base, pending, tombstones).unwrap()).unwrap()
    };
    let none = decide(1000, 0, 0);
    assert_eq!(none.action, FSEArchiveMaintenanceAction::NoMaintenance);
    assert_eq!(none.reason, FSEArchiveMaintenanceReason::NoPendingMaintenance);
    assert!(!none.requires_archive_write());

    let append = decide(1000, 10, 0);
    assert_eq!(append.action, FSEArchiveMaintenanceAction::Append);
    assert_eq!(append.reason, FSEArchiveMaintenanceReason::PendingAppendRecords);
    assert!(append.requires_archive_write());

    let rebuild = decide(1000, 100, 0);
    assert_eq!(rebuild.action, FSEArchiveMaintenanceAction::Rebuild);
    assert_eq!(rebuild.reason, FSEArchiveMaintenanceReason::AppendRebuildThresholdReached);

    let compact = decide(1000, 0, 50);
    assert_eq!(compact.action, FSEArchiveMaintenanceAction::Compact);
    assert_eq!(compact.reason, FSEArchiveMaintenanceReason::CompactionTombstoneCountThresholdReached);
    assert_eq!(compact.tombstone_ratio_basis_points, 500);

    let ratio = decide(100, 0, 25);
    assert_eq!(ratio.action, FSEArchiveMaintenanceAction::Compact);
    assert_eq!(ratio.reason, FSEArchiveMaintenanceReason::CompactionTombstoneRatioThresholdReached);
    assert_eq!(ratio.tombstone_ratio_basis_points, 2500);

    let both = decide(100, 1, 25);
    assert_eq!(both.action, FSEArchiveMaintenanceAction::Rebuild);
    assert_eq!(both.reason, FSEArchiveMaintenanceReason::AppendAndCompactionThresholdsReached);
}

#[test]
fn maintenance_input_errors() {
    assert_eq!(
        FSEArchiveMaintenanceInput::try_new(0, 0, 0),
        Err(FSEArchiveMaintenanceError::ZeroBaseRecordCount)
    );
    assert_eq!(
        FSEArchiveMaintenanceInput::try_new(u64::MAX, 1, 0),
        Err(FSEArchiveMaintenanceError::ResultingRecordCountOverflow {
            base_record_count: u64::MAX,
            pending_append_record_count: 1,
        })
    );
    let input = FSEArchiveMaintenanceInput::try_new(3, 0, 1).unwrap();
    assert_eq!(input.tombstone_ratio_basis_points(), 3333);
}

#[test]
fn typed_query_index_maintenance_wraps_policy_errors() {
    let policy = FSEArchiveMaintenancePolicy::default();
    assert_eq!(
        evaluate_typed_query_index_archive_maintenance(0, 0, 0, &policy),
        Err(FSETypedQueryIndexArchiveMaintenanceError::Policy(
            FSEArchiveMaintenanceError::ZeroBaseRecordCount
        ))
    );
    let decision = evaluate_typed_query_index_archive_maintenance(10, 0, 0, &policy).unwrap();
    assert_eq!(decision.action, FSEArchiveMaintenanceAction::NoMaintenance);
    let footprint = FSETypedQueryIndexArchiveFootprint::try_new(100, 0).unwrap();
    let status = FSETypedQueryIndexArchiveMaintenanceStatus { decision, footprint };
    assert!(!status.requires_archive_write());
}

#[test]
fn footprints_add_up() {
    let footprint = FSETypedQueryIndexArchiveFootprint::try_new_with_append_delta(100, 20, 3).unwrap();
    assert_eq!(footprint.total_archive_bytes, 123);
    assert!(footprint.includes_append_delta_archive());
    assert!(footprint.includes_tombstone_archive());
    let plain = FSETypedQueryIndexArchiveFootprint::try_new(100, 0).unwrap();
    assert_eq!(plain.total_archive_bytes, 100);
    assert!(!plain.includes_append_delta_archive());
    assert!(!plain.includes_tombstone_archive());
    assert_eq!(
        FSETypedQueryIndexArchiveFootprint::try_new_with_append_delta(u64::MAX, 1, 0),
        Err(FSETypedQueryIndexArchiveFootprintError::TotalArchiveByteCountOverflow {
            query_index_archive_bytes: u64::MAX,
            append_delta_archive_bytes: 1,
            tombstone_archive_bytes: 0,
        })
    );
}

#[test]
fn section_footprint_adds_up() {
    let sections = FSETypedQueryIndexArchiveSectionFootprint::try_new(
        archive_payload_header_byte_count(),
        100,
        200,
        30,
        typed_query_index_section_framing_byte_count(),
    )
    .unwrap();
    assert_eq!(sections.payload_header_bytes, 13);
    assert_eq!(sections.section_framing_bytes, 24);
    assert_eq!(sections.typed_query_index_payload_bytes, 100 + 200 + 30 + 24);
    assert_eq!(sections.total_archive_bytes, 13 + 100 + 200 + 30 + 24);
}

#[test]
fn maintenance_steps_follow_the_action_and_pending_work() {
    assert_eq!(typed_query_index_archive_maintenance_step(FSEArchiveMaintenanceAction::NoMaintenance, true, true), Step::Nothing);
    assert_eq!(typed_query_index_archive_maintenance_step(FSEArchiveMaintenanceAction::Append, true, true), Step::Append);
    assert_eq!(typed_query_index_archive_maintenance_step(FSEArchiveMaintenanceAction::Append, false, true), Step::Nothing);
    assert_eq!(typed_query_index_archive_maintenance_step(FSEArchiveMaintenanceAction::Compact, false, false), Step::Compact);
    assert_eq!(typed_query_index_archive_maintenance_step(FSEArchiveMaintenanceAction::Rebuild, true, true), Step::AppendAndCompact);
    assert_eq!(typed_query_index_archive_maintenance_step(FSEArchiveMaintenanceAction::Rebuild, true, false), Step::Append);
    assert_eq!(typed_query_index_archive_maintenance_step(FSEArchiveMaintenanceAction::Rebuild, false, true), Step::Compact);
    assert_eq!(typed_query_index_archive_maintenance_step(FSEArchiveMaintenanceAction::Rebuild, false, false), Step::Nothing);
    assert!(Step::AppendAndCompact.applies_append() && Step::AppendAndCompact.applies_compaction());
    assert!(!Step::Compact.applies_append() && !Step::Append.applies_compaction());
}

#[test]
fn partition_node_integer_rules() {
    let leaf = FSEPartitionNodeShape {
        id: 2,
        centroid_dimensions: 3,
        bounds_min_dimensions: 3,
        bounds_max_dimensions: 3,
        residual_dimensions: 3,
        cardinality: 4,
        children: vec![],
        is_leaf: true,
    };
    assert_eq!(validate_partition_node_layout(&leaf, 2, 3), Ok(()));
    assert_eq!(
        validate_partition_node_layout(&leaf, 1, 3),
        Err(FSEArchiveSnapshotError::NodeIdMismatch { position: 1, node_id: 2 })
    );
    let mut short = leaf.clone();
    short.bounds_max_dimensions = 2;
    assert_eq!(
        validate_partition_node_layout(&short, 2, 3),
        Err(FSEArchiveSnapshotError::DimensionMismatch {
            node_id: 2,
            field: "bounds_max",
            actual_dimensions: 2,
            expected_dimensions: 3,
        })
    );
    assert_eq!(validate_partition_node_rows(&leaf, 4, 5), Ok(()));
    assert_eq!(
        validate_partition_node_rows(&leaf, 3, 5),
        Err(FSEArchiveSnapshotError::LeafCardinalityMismatch { node_id: 2, stored_rows: 3, cardinality: 4 })
    );
    let mut inner = leaf.clone();
    inner.is_leaf = false;
    inner.children = vec![3, 7];
    assert_eq!(
        validate_partition_node_rows(&inner, 5, 5),
        Err(FSEArchiveSnapshotError::StoredRowsExceedCardinality { node_id: 2, stored_rows: 5, cardinality: 4 })
    );
    assert_eq!(
        validate_partition_node_rows(&inner, 0, 5),
        Err(FSEArchiveSnapshotError::ChildReferenceOutOfRange { node_id: 2, child_id: 7, node_count: 5 })
    );
    let mut leaf_with_child = leaf.clone();
    leaf_with_child.children = vec![0];
    assert_eq!(
        validate_partition_node_rows(&leaf_with_child, 4, 5),
        Err(FSEArchiveSnapshotError::LeafHasChildren { node_id: 2 })
    );
}

#[test]
fn residual_blocks_store_the_rows_of_their_first_dimension() {
    assert_eq!(residual_stored_rows(&[]), Some(0));
    assert_eq!(residual_stored_rows(&[4, 4, 4]), Some(4));
    assert_eq!(residual_stored_rows(&[4, 3, 4]), None);
    assert_eq!(residual_stored_rows(&[0, 0]), Some(0));
}
