use zen_render_mesh::asset::validate::{CullingFault, CullingVerdicts};
use zen_render_mesh::asset::partition::{
    canonical_oriented_triangle, first_index_out_of_range, partition_meshlets_fallback,
    verify_partition_topology,
};
use zen_render_mesh::asset::{
    BoundsSphere, LodTableEntry, MeshTableEntry, MeshletAssetError, MeshletAssetHash,
    MeshletBuildConfig, MeshletCacheKey, MeshletPsoClass, MeshletSceneAsset, MeshletTableEntry,
    NormalCone, PackedVertexAttributes, MESHLET_BUILDER_REVISION, ZENMESH_VERSION,
};

/// Decoding as a host does it: the records, then validation with the host's culling findings
/// (none here).
fn decode_zenmesh(bytes: &[u8]) -> Result<MeshletSceneAsset, MeshletAssetError> {
    let asset = MeshletSceneAsset::decode_records(bytes)?;
    asset.validate(&CullingVerdicts::none())?;
    Ok(asset)
}

fn decode_cached(bytes: &[u8], expected: MeshletCacheKey) -> Result<MeshletSceneAsset, MeshletAssetError> {
    decode_zenmesh(bytes)?.check_cache_key(expected)
}

fn bits(v: [f32; 3]) -> [u32; 3] {
    [v[0].to_bits(), v[1].to_bits(), v[2].to_bits()]
}

/// The one-triangle asset the builder produces for a single source triangle, with the given
/// material slot, class and fallback stream.
fn triangle_asset(material_slot: u32, pso_class: u32, fallback: Vec<u32>) -> MeshletSceneAsset {
    let config = MeshletBuildConfig::default_config();
    let bounds = BoundsSphere {
        center: bits([0.0, -0.25, 0.0]),
        radius: 1.5f32.to_bits(),
    };
    MeshletSceneAsset::from_parts(
        MeshletAssetHash::digest(b"triangle source"),
        config.build_hash(),
        config,
        vec![MeshTableEntry {
            first_lod: 0,
            lod_count: 1,
            first_vertex: 0,
            vertex_count: 3,
            material_slot,
            pso_class,
            bounds,
        }],
        vec![LodTableEntry {
            first_meshlet: 0,
            meshlet_count: 1,
            first_index: 0,
            index_count: 3,
            first_vertex: 0,
            vertex_count: 3,
            geometric_error: 0,
            bounds,
        }],
        vec![MeshletTableEntry {
            vertex_offset: 0,
            vertex_count: 3,
            triangle_offset: 0,
            triangle_count: 1,
            fallback_first_index: 0,
            fallback_index_count: 3,
            bounds,
            normal_cone: NormalCone::disabled(),
        }],
        vec![
            bits([-1.0, -1.0, 0.0]),
            bits([1.0, -1.0, 0.0]),
            bits([0.0, 1.0, 0.0]),
        ],
        vec![PackedVertexAttributes::default(); 3],
        vec![0, 1, 2],
        vec![0, 1, 2],
        fallback,
    )
}

fn triangle() -> MeshletSceneAsset {
    triangle_asset(0, 0, vec![0, 1, 2])
}

#[test]
fn defaults_match_the_v1_contract() {
    let config = MeshletBuildConfig::default_config();
    config.validate().unwrap();
    assert_eq!(config.max_meshlet_vertices, 64);
    assert_eq!(config.max_meshlet_triangles, 64);
    assert_eq!(config.task_workgroup_meshlets, 32);
    assert_eq!(f32::from_bits(config.lod_target_ratio), 0.5);
    assert_eq!(config.min_lod_triangles, 128);
    assert_eq!(ZENMESH_VERSION, 1);
    assert_eq!(MESHLET_BUILDER_REVISION, 2);
    assert_eq!(MeshletBuildConfig::default(), config);
}

#[test]
fn zenmesh_round_trip_is_byte_deterministic() {
    let asset = triangle_asset(17, MeshletPsoClass::OpaqueTwoSided.as_u32(), vec![0, 1, 2]);
    asset.validate(&CullingVerdicts::none()).unwrap();
    let first = asset.encode_zenmesh(&CullingVerdicts::none()).unwrap();
    let decoded = decode_zenmesh(&first).unwrap();
    let second = decoded.encode_zenmesh(&CullingVerdicts::none()).unwrap();
    assert_eq!(decoded, asset);
    assert_eq!(second, first);
    assert_eq!(first.len() % 16, 0);
    assert_eq!(decoded.meshes()[0].material_slot, 17);
    assert!(matches!(
        decoded.meshes()[0].pso_class(),
        Ok(MeshletPsoClass::OpaqueTwoSided)
    ));
}

#[test]
fn cache_validation_checks_both_hashes() {
    let asset = triangle();
    let bytes = asset.encode_zenmesh(&CullingVerdicts::none()).unwrap();
    decode_cached(&bytes, asset.cache_key()).unwrap();

    let stale = MeshletCacheKey {
        source_hash: MeshletAssetHash::digest(b"different source"),
        ..asset.cache_key()
    };
    assert!(matches!(
        decode_cached(&bytes, stale),
        Err(MeshletAssetError::CacheKeyMismatch { .. })
    ));

    let stale_build = MeshletCacheKey {
        build_hash: MeshletAssetHash::digest(b"different build"),
        ..asset.cache_key()
    };
    assert!(matches!(
        decode_cached(&bytes, stale_build),
        Err(MeshletAssetError::CacheKeyMismatch { .. })
    ));
}

#[test]
fn malformed_or_corrupt_files_are_rejected() {
    let asset = triangle();
    let bytes = asset.encode_zenmesh(&CullingVerdicts::none()).unwrap();
    assert!(decode_zenmesh(&bytes[..bytes.len() - 1]).is_err());

    let mut corrupt = bytes;
    let last = corrupt.len() - 1;
    corrupt[last] ^= 0x80;
    assert!(decode_zenmesh(&corrupt).is_err());

    let mut corrupt_header = asset.encode_zenmesh(&CullingVerdicts::none()).unwrap();
    corrupt_header[24] ^= 0x80;
    assert!(decode_zenmesh(&corrupt_header).is_err());
}

#[test]
fn wrong_magic_and_version_are_reported() {
    let bytes = triangle().encode_zenmesh(&CullingVerdicts::none()).unwrap();
    let mut wrong_magic = bytes.clone();
    wrong_magic[0] ^= 0xff;
    assert!(matches!(
        decode_zenmesh(&wrong_magic),
        Err(MeshletAssetError::InvalidFormat(_))
    ));
    assert!(matches!(
        decode_zenmesh(&[]),
        Err(MeshletAssetError::InvalidFormat(_))
    ));
}

#[test]
fn validation_detects_topology_corruption() {
    let asset = triangle_asset(0, 0, vec![2, 1, 2]);
    assert!(matches!(
        asset.validate(&CullingVerdicts::none()),
        Err(MeshletAssetError::InvalidAsset(_))
    ));
    assert!(matches!(
        asset.encode_zenmesh(&CullingVerdicts::none()),
        Err(MeshletAssetError::InvalidAsset(_))
    ));
}

#[test]
fn invalid_configuration_is_reported_as_such() {
    let config = MeshletBuildConfig {
        max_meshlet_vertices: 2,
        ..MeshletBuildConfig::default_config()
    };
    assert!(matches!(
        config.validate(),
        Err(MeshletAssetError::InvalidConfig(_))
    ));
    let config = MeshletBuildConfig {
        lod_target_ratio: 1.0f32.to_bits(),
        ..MeshletBuildConfig::default_config()
    };
    assert!(config.validate().is_err());
    assert_ne!(
        config.build_hash(),
        MeshletBuildConfig::default_config().build_hash()
    );
}

#[test]
fn every_truncation_of_a_cache_file_is_rejected_without_panicking() {
    let bytes = triangle().encode_zenmesh(&CullingVerdicts::none()).unwrap();
    for length in 0..bytes.len() {
        assert!(
            decode_zenmesh(&bytes[..length]).is_err(),
            "truncation at byte {length} was accepted"
        );
    }
}

#[test]
fn partition_honors_vertex_and_triangle_limits() {
    let indices = [0, 1, 2, 1, 3, 2];
    let parts = partition_meshlets_fallback(&indices, 3, 1);
    assert_eq!(parts.len(), 2);
    assert_eq!(parts[0].vertex_refs, vec![0, 1, 2]);
    assert_eq!(parts[0].micro_indices, vec![0, 1, 2]);
    assert_eq!(parts[1].vertex_refs, vec![1, 3, 2]);
    assert_eq!(parts[1].micro_indices, vec![0, 1, 2]);
    assert!(verify_partition_topology(&indices, &[0, 1, 2, 1, 3, 2], 0).is_ok());
}

#[test]
fn partition_shares_vertices_inside_a_meshlet() {
    let indices = [0, 1, 2, 1, 3, 2];
    let parts = partition_meshlets_fallback(&indices, 64, 64);
    assert_eq!(parts.len(), 1);
    assert_eq!(parts[0].vertex_refs, vec![0, 1, 2, 3]);
    assert_eq!(parts[0].micro_indices, vec![0, 1, 2, 1, 3, 2]);
}

#[test]
fn topology_check_accepts_rotations_and_rejects_flips() {
    assert_eq!(canonical_oriented_triangle([5, 2, 9]), [2, 9, 5]);
    assert!(verify_partition_topology(&[0, 1, 2], &[11, 12, 10], 10).is_ok());
    assert!(verify_partition_topology(&[0, 1, 2], &[10, 12, 11], 10).is_err());
    assert!(verify_partition_topology(&[0, 1, 2], &[0, 1, 2], 10).is_err());
    assert!(verify_partition_topology(&[0, 1, 2], &[10, 11], 10).is_err());
}

#[test]
fn assembled_triangle_matches_the_hand_built_asset() {
    let expected = triangle();
    let config = MeshletBuildConfig::default_config();
    let mut asset =
        MeshletSceneAsset::empty(expected.source_hash(), config.build_hash(), config);
    for (position, attributes) in expected.positions().iter().zip(expected.attributes()) {
        asset.push_vertex(*position, *attributes);
    }
    let meshlet = expected.meshlets()[0];
    asset
        .push_meshlet(0, &[0, 1, 2], &[0, 1, 2], meshlet.bounds, meshlet.normal_cone)
        .unwrap();
    asset.push_lod(expected.lods()[0]);
    asset.push_mesh(expected.meshes()[0]);
    assert_eq!(asset, expected);
    asset.validate(&CullingVerdicts::none()).unwrap();
}

#[test]
fn pushed_meshlets_are_offset_to_their_lod() {
    let config = MeshletBuildConfig::default_config();
    let mut asset = MeshletSceneAsset::empty(
        MeshletAssetHash::zero(),
        config.build_hash(),
        config,
    );
    let cone = NormalCone::disabled();
    asset
        .push_meshlet(10, &[0, 2, 1], &[0, 1, 2, 2, 1, 0], BoundsSphere::default(), cone)
        .unwrap();
    asset
        .push_meshlet(20, &[5], &[0, 0, 0], BoundsSphere::default(), cone)
        .unwrap();
    assert_eq!(asset.meshlet_vertex_refs(), &[10, 12, 11, 25]);
    assert_eq!(asset.micro_indices(), &[0, 1, 2, 2, 1, 0, 0, 0, 0]);
    assert_eq!(asset.fallback_indices(), &[10, 12, 11, 11, 12, 10, 25, 25, 25]);
    let second = asset.meshlets()[1];
    assert_eq!(second.vertex_offset, 3);
    assert_eq!(second.triangle_offset, 6);
    assert_eq!(second.triangle_count, 1);
    assert_eq!(second.fallback_first_index, 6);
    assert!(matches!(
        asset.push_meshlet(u32::MAX, &[1], &[0, 0, 0], BoundsSphere::default(), cone),
        Err(MeshletAssetError::SizeOverflow(_))
    ));
}

#[test]
fn out_of_range_source_indices_are_located() {
    assert_eq!(first_index_out_of_range(&[0, 1, 2], 3), None);
    assert_eq!(first_index_out_of_range(&[0, 1, 99, 7], 3), Some(2));
}

#[test]
fn encoding_an_invalid_asset_returns_the_validation_error_itself() {
    // A broken fallback stream: the reconstruction check is the first rule that fails.
    let asset = triangle_asset(0, 0, vec![2, 1, 2]);
    match asset.encode_zenmesh(&CullingVerdicts::none()) {
        Err(MeshletAssetError::InvalidAsset(message)) => {
            assert_eq!(message, "meshlet fallback reconstruction differs from its topology");
        }
        other => panic!("unexpected result {other:?}"),
    }
    match asset.validate(&CullingVerdicts::none()) {
        Err(MeshletAssetError::InvalidAsset(message)) => {
            assert_eq!(message, "meshlet fallback reconstruction differs from its topology");
        }
        other => panic!("unexpected result {other:?}"),
    }

    // A configuration rule is reported before anything else.
    let config = MeshletBuildConfig {
        max_meshlet_vertices: 2,
        ..MeshletBuildConfig::default_config()
    };
    let broken = MeshletSceneAsset::empty(MeshletAssetHash::zero(), config.build_hash(), config);
    match broken.encode_zenmesh(&CullingVerdicts::none()) {
        Err(MeshletAssetError::InvalidConfig(message)) => {
            assert_eq!(message, "max_meshlet_vertices must be in 3..=256");
        }
        other => panic!("unexpected result {other:?}"),
    }

    // With a valid configuration, a stale build identity is the first structural fault.
    let config = MeshletBuildConfig::default_config();
    let stale = MeshletSceneAsset::empty(MeshletAssetHash::zero(), MeshletAssetHash::zero(), config);
    match stale.encode_zenmesh(&CullingVerdicts::none()) {
        Err(MeshletAssetError::InvalidAsset(message)) => {
            assert_eq!(message, "build hash does not match the serialized build configuration");
        }
        other => panic!("unexpected result {other:?}"),
    }
}

#[test]
fn culling_findings_count_where_their_checks_belong() {
    let asset = triangle();
    let lod_finding = CullingVerdicts { lods: vec![Some(CullingFault::MeshSphere)], meshlets: vec![] };
    match asset.validate(&lod_finding) {
        Err(MeshletAssetError::InvalidAsset(message)) => {
            assert_eq!(message, "mesh bounds sphere does not contain all referenced vertices");
        }
        other => panic!("unexpected result {other:?}"),
    }
    let meshlet_finding = CullingVerdicts {
        lods: vec![None],
        meshlets: vec![Some(CullingFault::ConeNotConservative)],
    };
    match asset.encode_zenmesh(&meshlet_finding) {
        Err(MeshletAssetError::InvalidAsset(message)) => {
            assert_eq!(message, "meshlet normal cone is not conservative");
        }
        other => panic!("unexpected result {other:?}"),
    }
    // The LOD's finding comes before the meshlet's, as the LOD is checked with its mesh.
    let both = CullingVerdicts {
        lods: vec![Some(CullingFault::LodSphere)],
        meshlets: vec![Some(CullingFault::MeshletSphere)],
    };
    match asset.validate(&both) {
        Err(MeshletAssetError::InvalidAsset(message)) => {
            assert_eq!(message, "LOD bounds sphere does not contain all referenced vertices");
        }
        other => panic!("unexpected result {other:?}"),
    }
    // A structural fault of the meshlet is reported before its culling finding.
    let broken = triangle_asset(0, 0, vec![2, 1, 2]);
    let finding = CullingVerdicts { lods: vec![], meshlets: vec![Some(CullingFault::ConeAxis)] };
    match broken.validate(&finding) {
        Err(MeshletAssetError::InvalidAsset(message)) => {
            assert_eq!(message, "meshlet fallback reconstruction differs from its topology");
        }
        other => panic!("unexpected result {other:?}"),
    }
    assert!(asset.validate(&CullingVerdicts { lods: vec![None], meshlets: vec![None] }).is_ok());
}

#[test]
fn encoded_files_follow_the_v1_layout() {
    let asset = triangle();
    let bytes = asset.encode_zenmesh(&CullingVerdicts::none()).unwrap();
    let u32_at = |p: usize| u32::from_le_bytes(bytes[p..p + 4].try_into().unwrap());
    let u64_at = |p: usize| u64::from_le_bytes(bytes[p..p + 8].try_into().unwrap());
    assert_eq!(&bytes[0..8], b"ZENMESH\0");
    assert_eq!(u32_at(8), 1);
    assert_eq!(u32_at(12), 0x0102_0304);
    assert_eq!(u32_at(16), 80);
    assert_eq!(u32_at(20), 9);
    assert_eq!(&bytes[24..40], &asset.source_hash().to_bytes());
    assert_eq!(u64_at(56), 80);
    assert_eq!(u64_at(64), bytes.len() as u64);
    assert_eq!(bytes.len() % 16, 0);
    for kind in 1..=9u32 {
        let entry = 80 + 48 * (kind as usize - 1);
        assert_eq!(u32_at(entry), kind);
        assert_eq!(u64_at(entry + 8) % 16, 0);
    }
    assert_eq!(u64_at(80 + 8), 512);
    assert_eq!(u64_at(80 + 16), 32);
}
