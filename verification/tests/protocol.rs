use vex_bridge::federation::{
    is_full_commit_hash, Federation, FederationMember, FederationTransform, FederationValidationError,
};
use vex_bridge::render_manifest::{
    RenderArtifactManifest, RenderArtifactResource, RenderArtifactValidationError, RenderBounds, RenderPolicy,
    RenderSemanticIndexDescriptor, RenderTileDescriptor,
};
use vex_bridge::schema::{
    is_compatible, parse_tag, FEDERATION, RENDER_MANIFEST, RENDER_MANIFEST_V2, RENDER_SEMANTIC_INDEX,
};

fn bits(v: [f64; 3]) -> [u64; 3] {
    [v[0].to_bits(), v[1].to_bits(), v[2].to_bits()]
}

fn resource(uri: &str) -> RenderArtifactResource {
    RenderArtifactResource {
        uri: uri.to_string(),
        content_type: "application/vnd.vex.render-tile".to_string(),
        sha256: "a".repeat(64),
        byte_length: 42,
    }
}

fn manifest() -> RenderArtifactManifest {
    RenderArtifactManifest {
        schema: RENDER_MANIFEST.to_string(),
        project_id: "project-123".to_string(),
        commit_hash: "e".repeat(64),
        artifact_id: "render-abc".to_string(),
        generated_at: "2026-07-17T13:38:07Z".to_string(),
        render_policy: None,
        tiles: vec![RenderTileDescriptor {
            tile_id: "0/0/0".to_string(),
            lod: 0,
            group: None,
            bounds: RenderBounds { min: bits([0.0, 0.0, 0.0]), max: bits([10.0, 5.0, 3.0]) },
            geometric_error: 0.0f64.to_bits(),
            artifact: resource("/v1/render-artifacts/render-abc/tiles/0-0-0"),
            semantic_index: None,
        }],
        semantic_index: Some(RenderSemanticIndexDescriptor {
            schema: RENDER_SEMANTIC_INDEX.to_string(),
            entry_count: 1,
            artifact: resource("/v1/render-artifacts/render-abc/semantic-index"),
        }),
    }
}

fn semantic_index() -> RenderSemanticIndexDescriptor {
    RenderSemanticIndexDescriptor {
        schema: RENDER_SEMANTIC_INDEX.to_string(),
        entry_count: 1,
        artifact: resource("/v1/render-artifacts/render-abc/tiles/full-model/semantic-index"),
    }
}

fn manifest_v2() -> RenderArtifactManifest {
    RenderArtifactManifest {
        schema: RENDER_MANIFEST_V2.to_string(),
        project_id: "project-123".to_string(),
        commit_hash: "e".repeat(64),
        artifact_id: "render-def".to_string(),
        generated_at: "2026-07-17T13:38:07Z".to_string(),
        render_policy: Some(RenderPolicy {
            id: "vex.render-policy.full-model/1".to_string(),
            hash: "b".repeat(64),
        }),
        tiles: vec![RenderTileDescriptor {
            tile_id: "full-model".to_string(),
            lod: 0,
            group: None,
            bounds: RenderBounds { min: bits([0.0, 0.0, 0.0]), max: bits([10.0, 5.0, 3.0]) },
            geometric_error: 0.0f64.to_bits(),
            artifact: resource("/v1/render-artifacts/render-def/tiles/full-model"),
            semantic_index: Some(semantic_index()),
        }],
        semantic_index: None,
    }
}

#[test]
fn render_manifest_validates_immutable_tile_descriptors() {
    let manifest = manifest();
    assert!(manifest.validate().is_ok());
    assert_eq!(manifest.schema, RENDER_MANIFEST);
}

#[test]
fn render_manifest_rejects_duplicate_tiles_and_incompatible_index_schema() {
    let mut duplicate = manifest();
    duplicate.tiles.push(duplicate.tiles[0].clone());
    assert!(matches!(
        duplicate.validate(),
        Err(RenderArtifactValidationError::DuplicateTileId(tile_id)) if tile_id == "0/0/0"
    ));

    let mut incompatible_index = manifest();
    incompatible_index.semantic_index.as_mut().unwrap().schema = "vex.render-semantic-index/2".to_string();
    assert!(matches!(
        incompatible_index.validate(),
        Err(RenderArtifactValidationError::IncompatibleSchema { field: "semantic_index", .. })
    ));
}

#[test]
fn v2_manifest_validates_with_tile_local_index_and_policy() {
    let manifest = manifest_v2();
    assert!(manifest.validate().is_ok());
    assert_eq!(manifest.schema, RENDER_MANIFEST_V2);
    assert_eq!(manifest.resources().len(), 2);
}

#[test]
fn v2_manifest_requires_policy_and_tile_local_index() {
    let mut missing_policy = manifest_v2();
    missing_policy.render_policy = None;
    assert!(matches!(
        missing_policy.validate(),
        Err(RenderArtifactValidationError::MissingField("render_policy"))
    ));

    let mut missing_index = manifest_v2();
    missing_index.tiles[0].semantic_index = None;
    assert!(matches!(
        missing_index.validate(),
        Err(RenderArtifactValidationError::MissingField("tile.semantic_index"))
    ));

    let mut bad_policy = manifest_v2();
    bad_policy.render_policy.as_mut().unwrap().id = "full-model".to_string();
    assert!(matches!(bad_policy.validate(), Err(RenderArtifactValidationError::InvalidPolicyId { .. })));

    let mut bad_policy_hash = manifest_v2();
    bad_policy_hash.render_policy.as_mut().unwrap().hash = "NOT-HEX".to_string();
    assert!(matches!(
        bad_policy_hash.validate(),
        Err(RenderArtifactValidationError::InvalidSha256 { resource }) if resource == "render_policy.hash"
    ));
}

#[test]
fn v2_manifest_rejects_v1_shaped_fields() {
    let mut global_index = manifest_v2();
    global_index.semantic_index = Some(semantic_index());
    assert!(matches!(
        global_index.validate(),
        Err(RenderArtifactValidationError::UnexpectedField { field: "semantic_index", .. })
    ));

    let mut policy_in_v1 = manifest();
    policy_in_v1.render_policy = Some(RenderPolicy {
        id: "vex.render-policy.full-model/1".to_string(),
        hash: "b".repeat(64),
    });
    assert!(matches!(
        policy_in_v1.validate(),
        Err(RenderArtifactValidationError::UnexpectedField { field: "render_policy", .. })
    ));
}

#[test]
fn v2_manifest_rejects_tampered_tile_index_resource() {
    let mut tampered = manifest_v2();
    tampered.tiles[0].semantic_index.as_mut().unwrap().artifact.sha256 = "not-a-valid-sha".to_string();
    assert!(matches!(tampered.validate(), Err(RenderArtifactValidationError::InvalidSha256 { .. })));
}

#[test]
fn v2_manifest_accepts_multi_lod_group_ownership() {
    let mut grouped = manifest_v2();
    grouped.tiles[0].group = Some("storey-a".to_string());
    grouped.tiles[0].tile_id = "storey-a".to_string();
    let mut coarse = grouped.tiles[0].clone();
    coarse.tile_id = "storey-a/coarse".to_string();
    coarse.group = Some("storey-a".to_string());
    coarse.lod = 1;
    coarse.geometric_error = 4.0f64.to_bits();
    grouped.tiles.insert(0, coarse);
    assert!(grouped.validate().is_ok());
    assert_eq!(grouped.tiles[0].group.as_deref(), Some("storey-a"));
    assert_eq!(grouped.tiles[0].lod, 1);
}

#[test]
fn v2_manifest_rejects_empty_group_key() {
    let mut empty_group = manifest_v2();
    empty_group.tiles[0].group = Some(String::new());
    assert!(matches!(
        empty_group.validate(),
        Err(RenderArtifactValidationError::MissingField("tile.group"))
    ));
}

#[test]
fn v1_manifest_rejects_tile_group_key() {
    let mut grouped_v1 = manifest();
    grouped_v1.tiles[0].group = Some("storey-a".to_string());
    assert!(matches!(
        grouped_v1.validate(),
        Err(RenderArtifactValidationError::UnexpectedField { field: "tile.group", .. })
    ));
}

#[test]
fn manifest_rejects_non_finite_bounds_and_negative_error() {
    let mut nan_bounds = manifest_v2();
    nan_bounds.tiles[0].bounds.max = bits([f64::NAN, 5.0, 3.0]);
    assert!(matches!(
        nan_bounds.validate(),
        Err(RenderArtifactValidationError::InvalidBounds { tile_id }) if tile_id == "full-model"
    ));

    let mut inverted = manifest_v2();
    inverted.tiles[0].bounds.min = bits([11.0, 0.0, 0.0]);
    assert!(matches!(inverted.validate(), Err(RenderArtifactValidationError::InvalidBounds { .. })));

    let mut negative = manifest_v2();
    negative.tiles[0].geometric_error = (-1.0f64).to_bits();
    assert!(matches!(
        negative.validate(),
        Err(RenderArtifactValidationError::InvalidGeometricError { tile_id }) if tile_id == "full-model"
    ));
}

#[test]
fn validation_messages_read_as_the_display_text() {
    assert_eq!(
        RenderArtifactValidationError::MissingField("render_policy").message(),
        "render_policy must not be empty"
    );
    assert_eq!(
        RenderArtifactValidationError::DuplicateTileId("0/0/0".to_string()).message(),
        "tile_id \"0/0/0\" is duplicated"
    );
    assert_eq!(
        FederationValidationError::TooManyMembers { max: 64 }.message(),
        "a federation may have at most 64 members"
    );
    assert_eq!(
        FederationValidationError::IncompatibleSchema { expected: FEDERATION, actual: "vex.federation/2".to_string() }
            .message(),
        "federation schema \"vex.federation/2\" is not compatible with \"vex.federation/1\""
    );
}

#[test]
fn canonicalized_uris_name_the_project_commit_and_digest() {
    let mut m = manifest_v2();
    m.canonicalize_resource_uris("project-123", &"e".repeat(64));
    let expected = format!("/v1/projects/project-123/render/{}/objects/{}", "e".repeat(64), "a".repeat(64));
    for resource in m.resources() {
        assert_eq!(resource.uri, expected);
    }
    assert!(m.validate().is_ok());
}

#[test]
fn schema_tags_split_and_compare_by_major() {
    assert_eq!(parse_tag("vex.visual-diff/1"), Some(("vex.visual-diff", 1)));
    assert_eq!(parse_tag("no-major"), None);
    assert!(is_compatible("vex.federation/1", FEDERATION));
    assert!(!is_compatible("vex.federation/2", FEDERATION));
    assert!(is_compatible("custom", "custom"));
    assert!(!is_compatible("custom", "other"));
}

fn federation_member(source: &str, commit: &str) -> FederationMember {
    FederationMember {
        member_id: format!("mem-{source}"),
        source_project_id: source.to_string(),
        commit_hash: commit.to_string(),
        display_name: "Architecture".to_string(),
        discipline: Some("architecture".to_string()),
        transform: FederationTransform::identity(),
        visible: true,
    }
}

fn federation() -> Federation {
    Federation {
        schema: FEDERATION.to_string(),
        federation_id: "fed-001".to_string(),
        name: "Tower coordination".to_string(),
        created_at_unix: 1_700_000_000,
        updated_at_unix: 1_700_000_000,
        members: vec![federation_member("arch", &"a".repeat(64)), federation_member("struct", &"b".repeat(64))],
    }
}

/// Identity placements are affine; the verdicts follow the members.
fn all_affine(f: &Federation) -> Vec<bool> {
    vec![true; f.members.len()]
}

#[test]
fn valid_federation_passes_validation_and_summarizes() {
    let federation = federation();
    assert!(federation.validate(&all_affine(&federation)).is_ok());
    let summary = federation.summary();
    assert_eq!(summary.member_count, 2);
    assert_eq!(summary.visible_member_count, 2);
    assert_eq!(summary.federation_id, "fed-001");
}

#[test]
fn federation_rejects_incompatible_schema() {
    let mut federation = federation();
    federation.schema = "vex.federation/2".to_string();
    assert!(matches!(
        federation.validate(&all_affine(&federation)),
        Err(FederationValidationError::IncompatibleSchema { .. })
    ));
}

#[test]
fn federation_requires_at_least_one_member_and_bounds_the_maximum() {
    let mut empty = federation();
    empty.members.clear();
    assert_eq!(empty.validate(&all_affine(&empty)), Err(FederationValidationError::NoMembers));

    let mut too_many = federation();
    too_many.members = (0..(Federation::MAX_MEMBERS + 1))
        .map(|index| {
            let mut member = federation_member(&format!("p{index}"), &"c".repeat(64));
            member.member_id = format!("mem-{index}");
            member
        })
        .collect();
    assert!(matches!(
        too_many.validate(&all_affine(&too_many)),
        Err(FederationValidationError::TooManyMembers { .. })
    ));
}

#[test]
fn federation_rejects_duplicate_member_id() {
    let mut federation = federation();
    federation.members[1].member_id = federation.members[0].member_id.clone();
    assert!(matches!(
        federation.validate(&all_affine(&federation)),
        Err(FederationValidationError::DuplicateMemberId(_))
    ));
}

#[test]
fn federation_rejects_duplicate_source_commit_pair() {
    let commit = "a".repeat(64);
    let mut federation = federation();
    federation.members[0].source_project_id = "arch".to_string();
    federation.members[0].commit_hash = commit.clone();
    federation.members[1].source_project_id = "arch".to_string();
    federation.members[1].commit_hash = commit;
    assert!(matches!(
        federation.validate(&all_affine(&federation)),
        Err(FederationValidationError::DuplicateSourceCommit { .. })
    ));
}

#[test]
fn federation_rejects_partial_or_non_hex_commit() {
    let mut short = federation();
    short.members[0].commit_hash = "abc".to_string();
    assert!(matches!(
        short.validate(&all_affine(&short)),
        Err(FederationValidationError::InvalidCommitHash { .. })
    ));

    let mut non_hex = federation();
    non_hex.members[0].commit_hash = "g".repeat(64);
    assert!(matches!(
        non_hex.validate(&all_affine(&non_hex)),
        Err(FederationValidationError::InvalidCommitHash { .. })
    ));
}

#[test]
fn federation_rejects_unsafe_names_and_ids() {
    let mut bad_name = federation();
    bad_name.name = "line1\nline2".to_string();
    assert!(matches!(
        bad_name.validate(&all_affine(&bad_name)),
        Err(FederationValidationError::UnsafeText { field: "name" })
    ));

    let mut empty_name = federation();
    empty_name.name = "   ".to_string();
    assert!(matches!(
        empty_name.validate(&all_affine(&empty_name)),
        Err(FederationValidationError::MissingField("name"))
    ));

    let mut long_name = federation();
    long_name.name = "x".repeat(Federation::MAX_NAME_LEN + 1);
    assert!(matches!(
        long_name.validate(&all_affine(&long_name)),
        Err(FederationValidationError::TextTooLong { field: "name", .. })
    ));

    let mut traversal = federation();
    traversal.federation_id = "../../etc/passwd".to_string();
    assert!(matches!(
        traversal.validate(&all_affine(&traversal)),
        Err(FederationValidationError::UnsafeId { field: "federation_id" })
    ));

    let mut bad_source = federation();
    bad_source.members[0].source_project_id = "arch/../secret".to_string();
    assert!(matches!(
        bad_source.validate(&all_affine(&bad_source)),
        Err(FederationValidationError::UnsafeId { field: "source_project_id" })
    ));
}

#[test]
fn federation_rejects_invalid_member_transform() {
    let mut federation = federation();
    // A bottom row of [0, 0, 0, 0] is not affine, so the first member's verdict is negative.
    federation.members[0].transform.rows[3] = [0, 0, 0, 0];
    let verdicts = vec![false, true];
    assert!(matches!(
        federation.validate(&verdicts),
        Err(FederationValidationError::InvalidTransform { .. })
    ));
}

#[test]
fn identity_transform_has_unit_diagonal_bits() {
    let t = FederationTransform::identity();
    for i in 0..4 {
        for j in 0..4 {
            let expected = if i == j { 1.0f64 } else { 0.0f64 };
            assert_eq!(t.rows[i][j], expected.to_bits());
        }
    }
}

#[test]
fn full_commit_hashes_are_exactly_64_hex_digits() {
    assert!(is_full_commit_hash(&"a".repeat(64)));
    assert!(is_full_commit_hash(&"A0".repeat(32)));
    assert!(!is_full_commit_hash(&"a".repeat(63)));
    assert!(!is_full_commit_hash(&"g".repeat(64)));
}

#[test]
fn a_name_joined_to_a_major_parses_back() {
    assert_eq!(parse_tag("vex.render-manifest/2"), Some(("vex.render-manifest", 2)));
    assert_eq!(parse_tag("a/b/4294967295"), Some(("a/b", u32::MAX)));
    assert_eq!(parse_tag("vex.render-manifest/4294967296"), None);
    assert_eq!(parse_tag("no-slash"), None);
}
