//! The decisions the meshlet renderer makes around its GPU work: whether a device and scene are
//! acceptable, how materials and instances map onto the bindless table and raster bins, and
//! which prepared frame is current.

use vstd::prelude::*;

use crate::asset::{MeshTableEntry, MeshletAssetError, MeshletPsoClass};
use crate::bindless::{next_counter, RESERVED_FALLBACK_TEXTURES};
use crate::capabilities::{
    AdapterBackend, MeshletBindlessCapacity, MeshletDeviceRequirements, MeshletFeatures,
    MeshletLimitRequest, MeshletLimits,
};
use crate::config::{MeshletBackend, MeshletCapacityConfig, MeshletRendererConfig};
use crate::frame::{
    material_error, validate_material_resources, MaterialBindings, MaterialTextureBinding,
    MeshletRendererError, MipExtent,
};

verus! {

/// Every limit the request names is within what the device reports.
pub open spec fn limits_cover(request: MeshletLimitRequest, device: MeshletLimits) -> bool {
    &&& request.max_binding_array_elements_per_shader_stage
        <= device.max_binding_array_elements_per_shader_stage
    &&& request.max_binding_array_sampler_elements_per_shader_stage
        <= device.max_binding_array_sampler_elements_per_shader_stage
    &&& request.max_storage_buffer_binding_size <= device.max_storage_buffer_binding_size
    &&& request.max_buffer_size <= device.max_buffer_size
    &&& (request.mesh matches Some(m) ==> {
        &&& m.max_mesh_workgroup_total_count <= device.max_mesh_workgroup_total_count
        &&& m.max_mesh_workgroups_per_dimension <= device.max_mesh_workgroups_per_dimension
        &&& m.max_mesh_invocations_per_workgroup <= device.max_mesh_invocations_per_workgroup
        &&& m.max_mesh_invocations_per_dimension <= device.max_mesh_invocations_per_dimension
        &&& m.max_mesh_output_vertices <= device.max_mesh_output_vertices
        &&& m.max_mesh_output_primitives <= device.max_mesh_output_primitives
    })
    &&& (request.task matches Some(t) ==> {
        &&& t.max_task_workgroup_total_count <= device.max_task_workgroup_total_count
        &&& t.max_task_workgroups_per_dimension <= device.max_task_workgroups_per_dimension
        &&& t.max_task_invocations_per_workgroup <= device.max_task_invocations_per_workgroup
        &&& t.max_task_invocations_per_dimension <= device.max_task_invocations_per_dimension
        &&& t.max_task_payload_size <= device.max_task_payload_size
    })
}

/// Whether a device with `device` limits satisfies every limit of the request.
pub fn limits_satisfied(request: &MeshletLimitRequest, device: &MeshletLimits) -> (r: bool)
    ensures
        r == limits_cover(*request, *device),
{
    let base = request.max_binding_array_elements_per_shader_stage
        <= device.max_binding_array_elements_per_shader_stage
        && request.max_binding_array_sampler_elements_per_shader_stage
        <= device.max_binding_array_sampler_elements_per_shader_stage
        && request.max_storage_buffer_binding_size <= device.max_storage_buffer_binding_size
        && request.max_buffer_size <= device.max_buffer_size;
    let mesh = match request.mesh {
        Some(m) => m.max_mesh_workgroup_total_count <= device.max_mesh_workgroup_total_count
            && m.max_mesh_workgroups_per_dimension <= device.max_mesh_workgroups_per_dimension
            && m.max_mesh_invocations_per_workgroup <= device.max_mesh_invocations_per_workgroup
            && m.max_mesh_invocations_per_dimension <= device.max_mesh_invocations_per_dimension
            && m.max_mesh_output_vertices <= device.max_mesh_output_vertices
            && m.max_mesh_output_primitives <= device.max_mesh_output_primitives,
        None => true,
    };
    let task = match request.task {
        Some(t) => t.max_task_workgroup_total_count <= device.max_task_workgroup_total_count
            && t.max_task_workgroups_per_dimension <= device.max_task_workgroups_per_dimension
            && t.max_task_invocations_per_workgroup <= device.max_task_invocations_per_workgroup
            && t.max_task_invocations_per_dimension <= device.max_task_invocations_per_dimension
            && t.max_task_payload_size <= device.max_task_payload_size,
        None => true,
    };
    base && mesh && task
}

/// The verdict on a created device: the requirements must come from a Vulkan adapter and this
/// exact configuration, name a concrete backend that agrees with an explicitly configured one,
/// and the device must have every requested feature and limit.
pub open spec fn requirements_check(
    device_features: MeshletFeatures,
    device_limits: MeshletLimits,
    config: MeshletRendererConfig,
    req: MeshletDeviceRequirements,
) -> Result<(), MeshletRendererError> {
    let missing = req.spec_features().spec_difference(device_features);
    if req.spec_adapter_backend() != AdapterBackend::Vulkan {
        Err(MeshletRendererError::UnsupportedWgpuBackend { actual: req.spec_adapter_backend() })
    } else if req.spec_source_config() != config {
        Err(MeshletRendererError::RequirementsConfigMismatch)
    } else if req.spec_backend() == MeshletBackend::Auto {
        Err(MeshletRendererError::UnresolvedBackend)
    } else if config.backend != MeshletBackend::Auto && config.backend != req.spec_backend() {
        Err(
            MeshletRendererError::BackendMismatch {
                configured: config.backend,
                requested: req.spec_backend(),
            },
        )
    } else if !missing.spec_is_empty() {
        Err(MeshletRendererError::DeviceMissingFeatures { missing })
    } else if !limits_cover(req.spec_limits(), device_limits) {
        Err(MeshletRendererError::DeviceLimitsMismatch)
    } else {
        Ok(())
    }
}

/// Checks a created device and its requirements against the renderer configuration.
pub fn validate_requirements(
    device_features: MeshletFeatures,
    device_limits: &MeshletLimits,
    config: MeshletRendererConfig,
    requirements: &MeshletDeviceRequirements,
) -> (r: Result<(), MeshletRendererError>)
    ensures
        r == requirements_check(device_features, *device_limits, config, *requirements),
{
    let actual = requirements.adapter_backend();
    if actual != AdapterBackend::Vulkan {
        return Err(MeshletRendererError::UnsupportedWgpuBackend { actual });
    }
    if requirements.source_config() != config {
        return Err(MeshletRendererError::RequirementsConfigMismatch);
    }
    let requested = requirements.backend();
    if !requested.is_resolved() {
        return Err(MeshletRendererError::UnresolvedBackend);
    }
    if config.backend.is_resolved() && config.backend != requested {
        return Err(MeshletRendererError::BackendMismatch { configured: config.backend, requested });
    }
    let missing = requirements.features().difference(device_features);
    if !missing.is_empty() {
        return Err(MeshletRendererError::DeviceMissingFeatures { missing });
    }
    if !limits_satisfied(requirements.limits(), device_limits) {
        return Err(MeshletRendererError::DeviceLimitsMismatch);
    }
    Ok(())
}

/// `a - b`, or zero when `b` exceeds `a`.
pub open spec fn saturating_sub(a: u32, b: u32) -> u32 {
    if a >= b {
        (a - b) as u32
    } else {
        0
    }
}

/// The verdict on the scene's size: instances within the configured capacity, and textures and
/// samplers within the bindless slots left after the fallbacks.
pub open spec fn scene_capacity_check(
    capacities: MeshletCapacityConfig,
    bindless: MeshletBindlessCapacity,
    instance_count: usize,
    texture_count: usize,
    sampler_count: usize,
) -> Result<(), MeshletRendererError> {
    let textures = saturating_sub(bindless.textures, RESERVED_FALLBACK_TEXTURES);
    let samplers = saturating_sub(bindless.samplers, 1);
    if instance_count > capacities.max_instances {
        Err(
            MeshletRendererError::InstanceCapacityExceeded {
                actual: instance_count,
                capacity: capacities.max_instances,
            },
        )
    } else if texture_count > textures {
        Err(MeshletRendererError::TextureCapacityExceeded { actual: texture_count, capacity: textures })
    } else if sampler_count > samplers {
        Err(MeshletRendererError::SamplerCapacityExceeded { actual: sampler_count, capacity: samplers })
    } else {
        Ok(())
    }
}

/// Checks that the scene fits the configured and bindless capacities.
pub fn check_scene_capacity(
    capacities: MeshletCapacityConfig,
    bindless: MeshletBindlessCapacity,
    instance_count: usize,
    texture_count: usize,
    sampler_count: usize,
) -> (r: Result<(), MeshletRendererError>)
    ensures
        r == scene_capacity_check(
            capacities,
            bindless,
            instance_count,
            texture_count,
            sampler_count,
        ),
{
    if instance_count > capacities.max_instances as usize {
        return Err(
            MeshletRendererError::InstanceCapacityExceeded {
                actual: instance_count,
                capacity: capacities.max_instances,
            },
        );
    }
    let textures = bindless.textures.saturating_sub(RESERVED_FALLBACK_TEXTURES);
    if texture_count > textures as usize {
        return Err(
            MeshletRendererError::TextureCapacityExceeded { actual: texture_count, capacity: textures },
        );
    }
    let samplers = bindless.samplers.saturating_sub(1);
    if sampler_count > samplers as usize {
        return Err(
            MeshletRendererError::SamplerCapacityExceeded { actual: sampler_count, capacity: samplers },
        );
    }
    Ok(())
}

/// The instance-classification dispatch, one workgroup per 64 instances, must fit a square
/// launch of `max_dimension` per side.
pub fn validate_instance_dispatch(instance_count: u32, max_dimension: u32) -> (r: Result<
    (),
    MeshletRendererError,
>)
    ensures
        ({
            let groups = (instance_count + 63) / 64;
            &&& groups > max_dimension * max_dimension ==> r == Err::<(), MeshletRendererError>(
                MeshletRendererError::InstanceDispatchExceeded {
                    groups: groups as u64,
                    max_dimension,
                },
            )
            &&& groups <= max_dimension * max_dimension ==> r is Ok
        }),
{
    let groups: u64 = (instance_count as u64 + 63) / 64;
    let d = max_dimension as u64;
    assert(d * d <= u64::MAX) by (nonlinear_arith)
        requires
            d <= u32::MAX,
    ;
    let maximum: u64 = d * d;
    if groups > maximum {
        return Err(MeshletRendererError::InstanceDispatchExceeded { groups, max_dimension });
    }
    Ok(())
}

/// The texture slot a material channel uses: the channel's fallback when the scene supplies no
/// textures, else the scene texture shifted past the fallbacks.
pub open spec fn remap_texture(texture_id: u32, texture_count: usize, fallback: u32) -> u32 {
    if texture_count == 0 {
        fallback
    } else {
        (RESERVED_FALLBACK_TEXTURES + texture_id) as u32
    }
}

/// The sampler slot a material channel uses: the fallback sampler when the scene supplies none,
/// else the scene sampler shifted past it.
pub open spec fn remap_sampler(sampler_id: u32, sampler_count: usize) -> u32 {
    if sampler_count == 0 {
        0
    } else {
        (1 + sampler_id) as u32
    }
}

pub open spec fn remap_binding(
    b: MaterialTextureBinding,
    texture_count: usize,
    sampler_count: usize,
    fallback: u32,
) -> MaterialTextureBinding {
    MaterialTextureBinding {
        texture_id: remap_texture(b.texture_id, texture_count, fallback),
        sampler_id: remap_sampler(b.sampler_id, sampler_count),
    }
}

/// A material with its channels moved onto bindless slots: albedo and occlusion fall back to
/// white, emissive to black.
pub open spec fn remapped(m: MaterialBindings, texture_count: usize, sampler_count: usize) -> MaterialBindings {
    MaterialBindings {
        albedo: remap_binding(m.albedo, texture_count, sampler_count, 0),
        emissive: remap_binding(m.emissive, texture_count, sampler_count, 1),
        occlusion: remap_binding(m.occlusion, texture_count, sampler_count, 0),
    }
}

/// The material used when the scene supplies none: white albedo and occlusion, black emission,
/// all with the fallback sampler.
pub open spec fn default_material() -> MaterialBindings {
    MaterialBindings {
        albedo: MaterialTextureBinding { texture_id: 0, sampler_id: 0 },
        emissive: MaterialTextureBinding { texture_id: 1, sampler_id: 0 },
        occlusion: MaterialTextureBinding { texture_id: 0, sampler_id: 0 },
    }
}

fn remap_binding_exec(
    b: MaterialTextureBinding,
    texture_count: usize,
    sampler_count: usize,
    fallback: u32,
) -> (r: MaterialTextureBinding)
    requires
        b.texture_id <= u32::MAX - RESERVED_FALLBACK_TEXTURES,
        b.sampler_id < u32::MAX,
    ensures
        r == remap_binding(b, texture_count, sampler_count, fallback),
{
    MaterialTextureBinding {
        texture_id: if texture_count == 0 {
            fallback
        } else {
            RESERVED_FALLBACK_TEXTURES + b.texture_id
        },
        sampler_id: if sampler_count == 0 {
            0
        } else {
            1 + b.sampler_id
        },
    }
}

fn remap_material(m: MaterialBindings, texture_count: usize, sampler_count: usize) -> (r:
    MaterialBindings)
    requires
        m.albedo.texture_id <= u32::MAX - RESERVED_FALLBACK_TEXTURES,
        m.emissive.texture_id <= u32::MAX - RESERVED_FALLBACK_TEXTURES,
        m.occlusion.texture_id <= u32::MAX - RESERVED_FALLBACK_TEXTURES,
        m.albedo.sampler_id < u32::MAX,
        m.emissive.sampler_id < u32::MAX,
        m.occlusion.sampler_id < u32::MAX,
    ensures
        r == remapped(m, texture_count, sampler_count),
{
    MaterialBindings {
        albedo: remap_binding_exec(m.albedo, texture_count, sampler_count, 0),
        emissive: remap_binding_exec(m.emissive, texture_count, sampler_count, 1),
        occlusion: remap_binding_exec(m.occlusion, texture_count, sampler_count, 0),
    }
}

/// Moves the scene's validated materials onto bindless slots; a scene without materials gets the
/// default material, moved the same way.
pub fn remap_materials(materials: &[MaterialBindings], texture_count: usize, sampler_count: usize) -> (r:
    Vec<MaterialBindings>)
    requires
        forall|k: int|
            0 <= k < materials@.len() ==> material_error(
                #[trigger] materials@[k],
                k,
                texture_count,
                sampler_count,
            ) is None,
        texture_count <= u32::MAX - RESERVED_FALLBACK_TEXTURES,
        sampler_count < u32::MAX,
    ensures
        materials@.len() == 0 ==> r@ == seq![remapped(default_material(), texture_count, sampler_count)],
        materials@.len() > 0 ==> r@.len() == materials@.len() && forall|k: int|
            0 <= k < materials@.len() ==> r@[k] == remapped(
                #[trigger] materials@[k],
                texture_count,
                sampler_count,
            ),
{
    let mut out: Vec<MaterialBindings> = Vec::new();
    if materials.len() == 0 {
        let d = MaterialBindings {
            albedo: MaterialTextureBinding { texture_id: 0, sampler_id: 0 },
            emissive: MaterialTextureBinding { texture_id: 1, sampler_id: 0 },
            occlusion: MaterialTextureBinding { texture_id: 0, sampler_id: 0 },
        };
        out.push(remap_material(d, texture_count, sampler_count));
        return out;
    }
    let mut k: usize = 0;
    while k < materials.len()
        invariant
            k <= materials@.len(),
            out@.len() == k,
            texture_count <= u32::MAX - RESERVED_FALLBACK_TEXTURES,
            sampler_count < u32::MAX,
            forall|j: int|
                0 <= j < materials@.len() ==> material_error(
                    #[trigger] materials@[j],
                    j,
                    texture_count,
                    sampler_count,
                ) is None,
            forall|j: int|
                0 <= j < k ==> out@[j] == remapped(#[trigger] materials@[j], texture_count, sampler_count),
        decreases materials@.len() - k,
    {
        let m = materials[k];
        proof {
            assert(material_error(materials@[k as int], k as int, texture_count, sampler_count) is None);
        }
        out.push(remap_material(m, texture_count, sampler_count));
        k = k + 1;
    }
    out
}

/// The materials of an upload, on bindless slots: each is checked against the texture and
/// sampler tables, the tables must leave every slot id addressable in `u32`, and a scene without
/// materials gets the default material.
pub fn prepare_materials(materials: &[MaterialBindings], texture_count: usize, sampler_count: usize) -> (r:
    Result<Vec<MaterialBindings>, MeshletRendererError>)
    ensures
        (exists|k: int|
            0 <= k < materials@.len() && material_error(
                #[trigger] materials@[k],
                k,
                texture_count,
                sampler_count,
            ) is Some) ==> r is Err && exists|k: int|
            0 <= k < materials@.len() && (forall|j: int|
                0 <= j < k ==> material_error(
                    #[trigger] materials@[j],
                    j,
                    texture_count,
                    sampler_count,
                ) is None) && Some(r->Err_0) == material_error(
                materials@[k],
                k,
                texture_count,
                sampler_count,
            ),
        ({
            &&& forall|k: int|
                0 <= k < materials@.len() ==> material_error(
                    #[trigger] materials@[k],
                    k,
                    texture_count,
                    sampler_count,
                ) is None
            &&& texture_count > u32::MAX - RESERVED_FALLBACK_TEXTURES
        }) ==> r == Err::<Vec<MaterialBindings>, MeshletRendererError>(
            MeshletRendererError::TextureCapacityExceeded {
                actual: texture_count,
                capacity: (u32::MAX - RESERVED_FALLBACK_TEXTURES) as u32,
            },
        ),
        ({
            &&& forall|k: int|
                0 <= k < materials@.len() ==> material_error(
                    #[trigger] materials@[k],
                    k,
                    texture_count,
                    sampler_count,
                ) is None
            &&& texture_count <= u32::MAX - RESERVED_FALLBACK_TEXTURES
            &&& sampler_count >= u32::MAX
        }) ==> r == Err::<Vec<MaterialBindings>, MeshletRendererError>(
            MeshletRendererError::SamplerCapacityExceeded {
                actual: sampler_count,
                capacity: (u32::MAX - 1) as u32,
            },
        ),
        r matches Ok(out) ==> texture_count <= u32::MAX - RESERVED_FALLBACK_TEXTURES && sampler_count
            < u32::MAX && (forall|k: int|
            0 <= k < materials@.len() ==> material_error(
                #[trigger] materials@[k],
                k,
                texture_count,
                sampler_count,
            ) is None) && (materials@.len() == 0 ==> out@ == seq![
            remapped(default_material(), texture_count, sampler_count),
        ]) && (materials@.len() > 0 ==> out@.len() == materials@.len() && forall|k: int|
            0 <= k < materials@.len() ==> out@[k] == remapped(
                #[trigger] materials@[k],
                texture_count,
                sampler_count,
            )),
        (forall|k: int|
            0 <= k < materials@.len() ==> material_error(
                #[trigger] materials@[k],
                k,
                texture_count,
                sampler_count,
            ) is None) && texture_count <= u32::MAX - RESERVED_FALLBACK_TEXTURES && sampler_count
            < u32::MAX ==> r is Ok,
{
    validate_material_resources(materials, texture_count, sampler_count)?;
    if texture_count > (u32::MAX - RESERVED_FALLBACK_TEXTURES) as usize {
        return Err(
            MeshletRendererError::TextureCapacityExceeded {
                actual: texture_count,
                capacity: u32::MAX - RESERVED_FALLBACK_TEXTURES,
            },
        );
    }
    if sampler_count >= u32::MAX as usize {
        return Err(
            MeshletRendererError::SamplerCapacityExceeded {
                actual: sampler_count,
                capacity: u32::MAX - 1,
            },
        );
    }
    Ok(remap_materials(materials, texture_count, sampler_count))
}

/// What the renderer needs to know of one instance: which mesh and material it draws, whether
/// its transform is a finite affine matrix, and whether that transform keeps orientation
/// (a positive, finite determinant).
#[derive(Clone, Copy, Debug, PartialEq, Eq, Structural)]
pub struct InstanceInput {
    pub mesh_id: u32,
    pub material_id: u32,
    pub finite_affine: bool,
    pub positive_determinant: bool,
}

/// The raster bin of a class number.
pub open spec fn class_of(n: u32) -> MeshletPsoClass {
    if n == 0 {
        MeshletPsoClass::OpaqueBackface
    } else {
        MeshletPsoClass::OpaqueTwoSided
    }
}

/// An instance draws in its mesh's bin, except that a back-face-culled mesh under a mirroring,
/// singular or malformed transform moves to the two-sided bin.
pub open spec fn instance_class(mesh_class: u32, positive_determinant: bool) -> MeshletPsoClass {
    if mesh_class == 0 && !positive_determinant {
        MeshletPsoClass::OpaqueTwoSided
    } else {
        class_of(mesh_class)
    }
}

/// The first rule instance `i` breaks, if any: a non-affine transform, an unknown mesh, or an
/// unknown material.
pub open spec fn instance_error(
    i: int,
    inst: InstanceInput,
    mesh_count: usize,
    material_count: usize,
) -> Option<MeshletRendererError> {
    if !inst.finite_affine {
        Some(MeshletRendererError::InvalidInstanceTransform { instance: i as usize })
    } else if inst.mesh_id >= mesh_count {
        Some(
            MeshletRendererError::InvalidInstanceMesh {
                instance: i as usize,
                mesh_id: inst.mesh_id,
                mesh_count,
            },
        )
    } else if inst.material_id >= material_count {
        Some(
            MeshletRendererError::InvalidInstanceMaterial {
                instance: i as usize,
                material_id: inst.material_id,
                material_count,
            },
        )
    } else {
        None
    }
}

/// The mesh instance `inst` draws names no known raster class.
pub open spec fn pso_fault(inst: InstanceInput, meshes: Seq<MeshTableEntry>) -> bool {
    inst.mesh_id < meshes.len() && meshes[inst.mesh_id as int].pso_class > 1
}

/// Instance `i` breaks no rule.
pub open spec fn instance_ok(
    i: int,
    inst: InstanceInput,
    meshes: Seq<MeshTableEntry>,
    material_count: usize,
) -> bool {
    instance_error(i, inst, meshes.len() as usize, material_count) is None && !pso_fault(inst, meshes)
}

/// `e` is the error instance `i` is refused with: its first broken rule among the transform, the
/// mesh and the material, and otherwise its mesh's unknown class.
pub open spec fn instance_refusal(
    i: int,
    inst: InstanceInput,
    meshes: Seq<MeshTableEntry>,
    material_count: usize,
    e: MeshletRendererError,
) -> bool {
    match instance_error(i, inst, meshes.len() as usize, material_count) {
        Some(x) => e == x,
        None => pso_fault(inst, meshes) && (e matches MeshletRendererError::InvalidAsset(
            MeshletAssetError::InvalidAsset(text),
        ) && text@ == "unknown PSO class"@),
    }
}

/// Checks every instance in order and assigns each its raster bin: the first instance that
/// breaks a rule decides the error.
pub fn classify_instances(
    instances: &[InstanceInput],
    meshes: &[MeshTableEntry],
    material_count: usize,
) -> (r: Result<Vec<MeshletPsoClass>, MeshletRendererError>)
    ensures
        r is Ok <==> forall|i: int|
            0 <= i < instances@.len() ==> instance_ok(
                i,
                #[trigger] instances@[i],
                meshes@,
                material_count,
            ),
        r matches Ok(classes) ==> classes@.len() == instances@.len() && forall|i: int|
            0 <= i < instances@.len() ==> classes@[i] == instance_class(
                meshes@[(#[trigger] instances@[i]).mesh_id as int].pso_class,
                instances@[i].positive_determinant,
            ),
        r is Err ==> exists|i: int|
            0 <= i < instances@.len() && (forall|j: int|
                0 <= j < i ==> instance_ok(j, #[trigger] instances@[j], meshes@, material_count))
                && instance_refusal(i, instances@[i], meshes@, material_count, r->Err_0),
{
    let mut out: Vec<MeshletPsoClass> = Vec::new();
    let mut i: usize = 0;
    while i < instances.len()
        invariant
            i <= instances@.len(),
            out@.len() == i,
            forall|j: int|
                0 <= j < i ==> instance_ok(j, #[trigger] instances@[j], meshes@, material_count),
            forall|j: int|
                0 <= j < i ==> out@[j] == instance_class(
                    meshes@[(#[trigger] instances@[j]).mesh_id as int].pso_class,
                    instances@[j].positive_determinant,
                ),
        decreases instances@.len() - i,
    {
        let inst = instances[i];
        if !inst.finite_affine {
            return Err(MeshletRendererError::InvalidInstanceTransform { instance: i });
        }
        if inst.mesh_id as usize >= meshes.len() {
            return Err(
                MeshletRendererError::InvalidInstanceMesh {
                    instance: i,
                    mesh_id: inst.mesh_id,
                    mesh_count: meshes.len(),
                },
            );
        }
        if inst.material_id as usize >= material_count {
            return Err(
                MeshletRendererError::InvalidInstanceMaterial {
                    instance: i,
                    material_id: inst.material_id,
                    material_count,
                },
            );
        }
        let mesh_class = meshes[inst.mesh_id as usize].pso_class;
        match MeshletPsoClass::try_from_u32(mesh_class) {
            Ok(_) => {},
            Err(e) => {
                return Err(MeshletRendererError::InvalidAsset(e));
            },
        }
        let class = if mesh_class == 0 && !inst.positive_determinant {
            MeshletPsoClass::OpaqueTwoSided
        } else if mesh_class == 0 {
            MeshletPsoClass::OpaqueBackface
        } else {
            MeshletPsoClass::OpaqueTwoSided
        };
        out.push(class);
        i = i + 1;
    }
    Ok(out)
}

/// How visible meshlets are shaded by every raster backend.
#[derive(Clone, Copy, Debug, PartialEq, Eq, Structural)]
pub enum MeshletRenderMode {
    /// Samples the material textures and applies forward lighting.
    Shaded,
    /// Draws each global meshlet id with a stable, unlit debug colour.
    MeshletId,
}

impl MeshletRenderMode {
    /// The value the raster uniform carries for this mode.
    pub open spec fn spec_code(self) -> u32 {
        match self {
            MeshletRenderMode::Shaded => 0,
            MeshletRenderMode::MeshletId => 1,
        }
    }

    /// The value the raster uniform carries for this mode: shaded is 0, meshlet ids are 1.
    pub fn code(self) -> (r: u32)
        ensures
            r == self.spec_code(),
    {
        match self {
            MeshletRenderMode::Shaded => 0,
            MeshletRenderMode::MeshletId => 1,
        }
    }
}

impl Default for MeshletRenderMode {
    /// Frames are shaded unless a debug view is asked for.
    fn default() -> (r: Self)
        ensures
            r == MeshletRenderMode::Shaded,
    {
        MeshletRenderMode::Shaded
    }
}

/// The extent a frame renders at: the requested one, with each side at least one.
pub fn frame_extent(width: u32, height: u32) -> (r: MipExtent)
    ensures
        r.width == if width == 0 {
            1
        } else {
            width
        },
        r.height == if height == 0 {
            1
        } else {
            height
        },
        r.depth_or_array_layers == 1,
{
    MipExtent {
        width: if width == 0 {
            1
        } else {
            width
        },
        height: if height == 0 {
            1
        } else {
            height
        },
        depth_or_array_layers: 1,
    }
}

/// Everything a prepared frame carries into recording and submission.
#[derive(Clone, Copy, Debug, PartialEq, Eq, Structural)]
pub struct PreparedMeshletFrame {
    pub renderer_id: u64,
    pub frame_id: u64,
    pub enable_occlusion_culling: bool,
    pub extent: MipExtent,
    pub bindless_epoch: u64,
    pub readback_index: Option<usize>,
    pub stats_frame_index: u64,
}

/// The verdict on a prepared frame: it must come from this renderer, be the one frame currently
/// prepared, and still own the active bindless epoch.
pub open spec fn prepared_check(
    renderer_id: u64,
    prepared: Option<(u64, u64)>,
    frame: PreparedMeshletFrame,
    current_epoch: u64,
) -> Result<(), MeshletRendererError> {
    if frame.renderer_id != renderer_id {
        Err(MeshletRendererError::ForeignPreparedFrame)
    } else if prepared != Some((frame.frame_id, frame.bindless_epoch)) || current_epoch
        != frame.bindless_epoch {
        Err(MeshletRendererError::StalePreparedFrame)
    } else {
        Ok(())
    }
}

/// Which frame of a renderer is prepared: at most one at a time, each with a fresh nonzero id.
pub struct FrameLedger {
    renderer_id: u64,
    next_frame_id: u64,
    prepared: Option<(u64, u64)>,
}

impl FrameLedger {
    pub closed spec fn spec_renderer_id(&self) -> u64 {
        self.renderer_id
    }

    pub closed spec fn spec_next_frame_id(&self) -> u64 {
        self.next_frame_id
    }

    /// The prepared frame's id and bindless epoch.
    pub closed spec fn spec_prepared(&self) -> Option<(u64, u64)> {
        self.prepared
    }

    pub fn new(renderer_id: u64) -> (r: Self)
        ensures
            r.spec_renderer_id() == renderer_id,
            r.spec_next_frame_id() == 1,
            r.spec_prepared() is None,
    {
        FrameLedger { renderer_id, next_frame_id: 1, prepared: None }
    }

    pub fn renderer_id(&self) -> (r: u64)
        ensures
            r == self.spec_renderer_id(),
    {
        self.renderer_id
    }

    pub fn is_prepared(&self) -> (r: bool)
        ensures
            r == self.spec_prepared() is Some,
    {
        self.prepared.is_some()
    }

    /// Prepares the next frame against `bindless_epoch` and returns its id.
    pub fn begin(&mut self, bindless_epoch: u64) -> (r: u64)
        requires
            old(self).spec_prepared() is None,
        ensures
            r == old(self).spec_next_frame_id(),
            final(self).spec_next_frame_id() == next_counter(old(self).spec_next_frame_id()),
            final(self).spec_prepared() == Some((r, bindless_epoch)),
            final(self).spec_renderer_id() == old(self).spec_renderer_id(),
    {
        let id = self.next_frame_id;
        self.next_frame_id = if self.next_frame_id == u64::MAX {
            1
        } else {
            self.next_frame_id + 1
        };
        self.prepared = Some((id, bindless_epoch));
        id
    }

    /// Checks that `frame` is this renderer's current prepared frame.
    pub fn check(&self, frame: &PreparedMeshletFrame, current_epoch: u64) -> (r: Result<
        (),
        MeshletRendererError,
    >)
        ensures
            r == prepared_check(self.spec_renderer_id(), self.spec_prepared(), *frame, current_epoch),
    {
        if frame.renderer_id != self.renderer_id {
            return Err(MeshletRendererError::ForeignPreparedFrame);
        }
        let current = match self.prepared {
            Some(p) => p.0 == frame.frame_id && p.1 == frame.bindless_epoch,
            None => false,
        };
        if !current || current_epoch != frame.bindless_epoch {
            return Err(MeshletRendererError::StalePreparedFrame);
        }
        Ok(())
    }

    /// Ends the prepared frame, submitted or discarded.
    pub fn end(&mut self)
        ensures
            final(self).spec_prepared() is None,
            final(self).spec_renderer_id() == old(self).spec_renderer_id(),
            final(self).spec_next_frame_id() == old(self).spec_next_frame_id(),
    {
        self.prepared = None;
    }
}

/// A prepared frame is accepted exactly while it is current: right after it is prepared it
/// passes the check, and once it has ended it is stale, as is any other renderer's frame.
pub proof fn lemma_prepared_frame_is_accepted_until_it_ends(
    renderer_id: u64,
    other_renderer_id: u64,
    frame: PreparedMeshletFrame,
    epoch: u64,
)
    requires
        frame.renderer_id == renderer_id,
        other_renderer_id != renderer_id,
    ensures
        prepared_check(renderer_id, Some((frame.frame_id, frame.bindless_epoch)), frame, frame.bindless_epoch)
            is Ok,
        prepared_check(renderer_id, None, frame, epoch) == Err::<(), MeshletRendererError>(
            MeshletRendererError::StalePreparedFrame,
        ),
        prepared_check(other_renderer_id, Some((frame.frame_id, frame.bindless_epoch)), frame, epoch)
            == Err::<(), MeshletRendererError>(MeshletRendererError::ForeignPreparedFrame),
{
}

} // verus!
