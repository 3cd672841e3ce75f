use pipewriter::interface::{DescriptorKind, PipelineInterface, ShaderStage, UniformBinding, VertexInputType};
use pipewriter::plan::pipeline;
use pipewriter::pool::{DescriptorCache, MAX_SETS};
use pipewriter::registry::{HandleIssuer, PipelineRegistry, Release};

fn two_plans() -> Vec<pipewriter::plan::PipelinePlan> {
    let first = PipelineInterface {
        name: String::from("Main"),
        arg_types: vec![VertexInputType::Vec3],
        uniforms: vec![UniformBinding {
            name: String::from("model"),
            binding: 0,
            descriptor_set: 0,
            kind: DescriptorKind::UniformBuffer,
            stage: ShaderStage::Vertex,
        }],
    };
    let second = PipelineInterface {
        name: String::from("Secondary"),
        arg_types: vec![VertexInputType::Vec3, VertexInputType::Vec2],
        uniforms: Vec::new(),
    };
    vec![pipeline(&first), pipeline(&second)]
}

#[test]
fn get_is_identity_preserving() {
    let mut registry = PipelineRegistry::new(two_plans(), 99);
    let (p0, l0) = {
        let v = registry.get(0);
        (v.pipeline, v.layout)
    };
    // The same identity returns the same underlying instance.
    let (p0b, l0b) = {
        let v = registry.get(0);
        (v.pipeline, v.layout)
    };
    assert_eq!(p0, p0b);
    assert_eq!(l0, l0b);
    // A different identity returns a distinct instance sharing nothing.
    let (p1, l1) = {
        let v = registry.get(1);
        (v.pipeline, v.layout)
    };
    assert_ne!(p0, p1);
    assert_ne!(l0, l1);
    let v0_sets: Vec<u64> = registry.borrow_variant(0).set_layouts.clone();
    let v1_sets: Vec<u64> = registry.borrow_variant(1).set_layouts.clone();
    for h in &v0_sets {
        assert!(!v1_sets.contains(h));
    }
}

#[test]
fn shader_module_is_shared_and_lazy() {
    let mut registry = PipelineRegistry::new(two_plans(), 5);
    assert!(registry.shader_module.is_none());
    registry.get(1);
    let module = registry.shader_module;
    assert!(module.is_some());
    registry.get(0);
    // The module is built once, on the first construction that needs it.
    assert_eq!(registry.shader_module, module);
}

#[test]
fn destroy_releases_in_reverse_construction_order() {
    let mut registry = PipelineRegistry::new(two_plans(), 5);
    let p1 = registry.get(1).pipeline;
    let l1 = registry.get(1).layout;
    let s1 = registry.get(1).set_layouts.clone();
    let p0 = registry.get(0).pipeline;
    let l0 = registry.get(0).layout;
    let s0 = registry.get(0).set_layouts.clone();
    let module = registry.shader_module.unwrap();
    let log = registry.destroy();
    // Identity 1 was constructed first, so identity 0 is released first:
    // pipeline, then pipeline layout, then each set layout, then the other
    // variant the same way, then the shared shader module.
    let mut expected = Vec::new();
    expected.push(Release::Pipeline(p0));
    expected.push(Release::PipelineLayout(l0));
    for h in &s0 {
        expected.push(Release::SetLayout(*h));
    }
    expected.push(Release::Pipeline(p1));
    expected.push(Release::PipelineLayout(l1));
    for h in &s1 {
        expected.push(Release::SetLayout(*h));
    }
    expected.push(Release::ShaderModule(module));
    assert_eq!(log, expected);
    // Each constructed pipeline is released exactly once.
    assert_eq!(log.iter().filter(|r| **r == Release::Pipeline(p0)).count(), 1);
    assert_eq!(log.iter().filter(|r| **r == Release::Pipeline(p1)).count(), 1);
}

#[test]
fn destroy_releases_pools_before_the_pipeline() {
    let mut registry = PipelineRegistry::new(two_plans(), 5);
    let p0 = registry.get(0).pipeline;
    let pool0 = registry.get_cache(0, 0);
    let pool1 = registry.get_cache(0, 1);
    let log = registry.destroy();
    // Pools go first, in reverse creation order.
    assert_eq!(log[0], Release::Pool(pool1));
    assert_eq!(log[1], Release::Pool(pool0));
    assert_eq!(log[2], Release::Pipeline(p0));
}

#[test]
fn get_cache_grows_monotonically() {
    let mut registry = PipelineRegistry::new(two_plans(), 5);
    registry.get(0);
    assert_eq!(registry.borrow_variant(0).caches.len(), 0);
    let pool3 = registry.get_cache(0, 3);
    // Growing to index 3 creates indices 0 through 3.
    assert_eq!(registry.borrow_variant(0).caches.len(), 4);
    assert_eq!(registry.borrow_variant(0).caches[3].pool, pool3);
    let pool1 = registry.get_cache(0, 1);
    // A later lower index returns the previously created instance unchanged.
    assert_eq!(registry.borrow_variant(0).caches.len(), 4);
    assert_eq!(registry.borrow_variant(0).caches[1].pool, pool1);
    let pools: Vec<u64> = registry.borrow_variant(0).caches.iter().map(|c| c.pool).collect();
    for a in 0..pools.len() {
        for b in 0..pools.len() {
            if a != b {
                assert_ne!(pools[a], pools[b]);
            }
        }
    }
}

#[test]
fn pool_allocation_tracks_live_sets() {
    let plans = two_plans();
    let layouts = &plans[0].set_layouts;
    let mut issuer = HandleIssuer::new();
    let mut cache = DescriptorCache::new(42);
    assert_eq!(cache.sets_in_use(), 0);
    let sets = cache.allocate(layouts, &mut issuer);
    assert_eq!(sets.len(), layouts.len());
    assert_eq!(cache.sets_in_use(), layouts.len());
    // The one uniform binding of the first plan consumes one uniform slot.
    assert_eq!(cache.live[0].uniforms, 1);
    assert_eq!(cache.live[0].samplers, 0);
    let again = cache.allocate(layouts, &mut issuer);
    assert_eq!(cache.sets_in_use(), 2 * layouts.len());
    for h in &sets {
        assert!(!again.contains(h));
    }
    cache.free(&sets);
    assert_eq!(cache.sets_in_use(), layouts.len());
    assert_eq!(cache.live[0].handle, again[0]);
}

#[test]
fn pool_capacity_limits_are_the_configured_ones() {
    assert_eq!(MAX_SETS, 16);
    assert_eq!(pipewriter::pool::UNIFORM_CAPACITY, 32);
    assert_eq!(pipewriter::pool::SAMPLER_CAPACITY, 16);
    assert_eq!(pipewriter::pool::INPUT_ATTACHMENT_CAPACITY, 3);
}

#[test]
fn client_index_map_stores_set_lists() {
    let mut cache = DescriptorCache::new(7);
    assert!(cache.get_sets(0).is_none());
    cache.insert_sets(3, vec![10, 11]);
    cache.insert_sets(0, vec![12]);
    assert_eq!(cache.get_sets(3), Some(&vec![10, 11]));
    assert_eq!(cache.get_sets(0), Some(&vec![12]));
    assert!(cache.get_sets(1).is_none());
    // Inserting under a stored index replaces its list and nothing else.
    cache.insert_sets(3, vec![20]);
    assert_eq!(cache.get_sets(3), Some(&vec![20]));
    assert_eq!(cache.get_sets(0), Some(&vec![12]));
}
