use zen_render_mesh::bindless::{
    validate_texture, BindlessSamplerError, BindlessTextureArena, BindlessTextureError,
    SamplerHandle, TextureHandle, TextureShape,
};

fn rgba8(width: u32, height: u32, byte_len: usize) -> TextureShape {
    TextureShape {
        width,
        height,
        rgba8_unorm_srgb: true,
        byte_len,
    }
}

fn white_1x1() -> TextureShape {
    rgba8(1, 1, 4)
}

fn insert(arena: &mut BindlessTextureArena, shape: TextureShape) -> Result<TextureHandle, BindlessTextureError> {
    arena.plan_insert(shape, 8_192)?;
    Ok(arena.commit_insert())
}

fn insert_sampler(arena: &mut BindlessTextureArena) -> Result<SamplerHandle, BindlessSamplerError> {
    arena.plan_insert_sampler()?;
    Ok(arena.commit_insert_sampler())
}

#[test]
fn stale_generation_cannot_remove_a_recycled_slot() {
    let mut arena = BindlessTextureArena::new(8, 1, 0, &[], 8_192).unwrap();
    let old = insert(&mut arena, white_1x1()).unwrap();
    arena.remove(old).unwrap();
    let replacement = insert(&mut arena, white_1x1()).unwrap();
    assert_eq!(old.slot, replacement.slot);
    assert_ne!(old.generation, replacement.generation);
    assert_eq!(
        arena.remove(old),
        Err(BindlessTextureError::InvalidHandle { handle: old })
    );
}

#[test]
fn malformed_texture_is_reported_without_panicking() {
    let arena = BindlessTextureArena::new(4, 1, 0, &[], 8_192).unwrap();
    let malformed = rgba8(1, 1, 0);
    assert_eq!(
        arena.plan_insert(malformed, 8_192),
        Err(BindlessTextureError::PixelSizeMismatch {
            actual: 0,
            expected: 4,
        })
    );
}

#[test]
fn failed_insert_does_not_consume_a_free_slot() {
    let mut arena = BindlessTextureArena::new(4, 1, 0, &[], 8_192).unwrap();
    let malformed = rgba8(1, 1, 0);
    assert!(matches!(
        insert(&mut arena, malformed),
        Err(BindlessTextureError::PixelSizeMismatch { actual: 0, expected: 4 })
    ));
    assert_eq!(
        insert(&mut arena, white_1x1()),
        Ok(TextureHandle { slot: 3, generation: 1 })
    );
}

#[test]
fn sampler_slots_use_generation_checked_recycling() {
    let mut arena = BindlessTextureArena::new(4, 2, 0, &[], 8_192).unwrap();
    let old = insert_sampler(&mut arena).unwrap();
    arena.remove_sampler(old).unwrap();
    let replacement = insert_sampler(&mut arena).unwrap();
    assert_eq!(old.slot, replacement.slot);
    assert_ne!(old.generation, replacement.generation);
    assert_eq!(
        arena.remove_sampler(old),
        Err(BindlessSamplerError::InvalidHandle { handle: old })
    );
}

#[test]
fn capacity_rules_are_checked_at_construction() {
    assert!(matches!(
        BindlessTextureArena::new(2, 1, 0, &[], 8_192),
        Err(BindlessTextureError::CapacityTooSmall { capacity: 2 })
    ));
    assert!(matches!(
        BindlessTextureArena::new(4, 2, 2, &[], 8_192),
        Err(BindlessTextureError::InitialSamplerCapacityExceeded {
            actual: 2,
            capacity: 1
        })
    ));
    assert!(matches!(
        BindlessTextureArena::new(4, 0, 1, &[], 8_192),
        Err(BindlessTextureError::InitialSamplerCapacityExceeded {
            actual: 1,
            capacity: 0
        })
    ));
    let arena = BindlessTextureArena::new(4, 3, 2, &[], 8_192).unwrap();
    assert_eq!(arena.plan_insert_sampler(), Err(BindlessSamplerError::Full { capacity: 3 }));
}

#[test]
fn full_table_and_fallbacks_are_protected() {
    let mut arena = BindlessTextureArena::new(4, 1, 0, &[], 8_192).unwrap();
    let handle = insert(&mut arena, white_1x1()).unwrap();
    assert_eq!(handle, TextureHandle { slot: 3, generation: 1 });
    assert_eq!(
        arena.plan_insert(white_1x1(), 8_192),
        Err(BindlessTextureError::Full { capacity: 4 })
    );
    let white = arena.fallbacks().white;
    assert_eq!(
        arena.remove(white),
        Err(BindlessTextureError::InvalidHandle { handle: white })
    );
    let linear = arena.fallback_samplers().linear;
    assert_eq!(
        arena.remove_sampler(linear),
        Err(BindlessSamplerError::InvalidHandle { handle: linear })
    );
}

#[test]
fn texture_checks_run_in_order() {
    assert_eq!(
        validate_texture(rgba8(0, 4, 0), 16),
        Err(BindlessTextureError::ZeroExtent { width: 0, height: 4 })
    );
    assert_eq!(
        validate_texture(rgba8(32, 4, 512), 16),
        Err(BindlessTextureError::DimensionsExceeded {
            width: 32,
            height: 4,
            maximum: 16
        })
    );
    let srgb_less = TextureShape {
        rgba8_unorm_srgb: false,
        ..rgba8(2, 2, 16)
    };
    assert_eq!(
        validate_texture(srgb_less, 16),
        Err(BindlessTextureError::UnsupportedFormat)
    );
    assert_eq!(validate_texture(rgba8(2, 3, 24), 16), Ok(24));
}

#[test]
fn bindless_changes_publish_only_after_the_active_epoch_is_submitted() {
    let mut arena = BindlessTextureArena::new(8, 1, 0, &[], 8_192).unwrap();
    // Construction publishes the first epoch.
    let first = arena.current_epoch_id();
    assert_eq!(first, 1);
    assert!(arena.retired_epoch_ids().is_empty());

    let active = arena.begin_frame(0);
    assert_eq!(active, first);
    let inserted = insert(&mut arena, white_1x1()).unwrap();
    arena.remove(inserted).unwrap();
    assert_eq!(arena.current_epoch_id(), active);

    let submission = arena.after_submit(active);
    assert_eq!(submission, 1);
    let next = arena.begin_frame(0);
    assert_ne!(next, active);
    assert_eq!(arena.retired_epoch_ids(), vec![active]);

    let unchanged = arena.begin_frame(submission);
    assert_eq!(unchanged, next);
    assert!(arena.retired_epoch_ids().is_empty());
}

#[test]
fn initial_textures_take_the_first_user_slots_in_order() {
    let malformed = rgba8(1, 1, 0);
    assert!(matches!(
        BindlessTextureArena::new(8, 1, 0, &[white_1x1(), malformed], 16),
        Err(BindlessTextureError::PixelSizeMismatch { actual: 0, expected: 4 })
    ));
    assert!(matches!(
        BindlessTextureArena::new(4, 1, 0, &[white_1x1(), white_1x1()], 16),
        Err(BindlessTextureError::Full { capacity: 4 })
    ));
    let mut arena = BindlessTextureArena::new(6, 1, 0, &[white_1x1(), white_1x1()], 16).unwrap();
    assert_eq!(arena.current_epoch_id(), 1);
    assert!(arena.retired_epoch_ids().is_empty());
    assert_eq!(
        insert(&mut arena, white_1x1()),
        Ok(TextureHandle { slot: 5, generation: 1 })
    );
    assert!(matches!(
        insert(&mut arena, white_1x1()),
        Err(BindlessTextureError::Full { capacity: 6 })
    ));
}
