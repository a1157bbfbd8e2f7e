use vkw::device::{
    create_logical_device, find_queue_families, get_required_device_extensions,
    select_physical_device, standard_context_config, swapchain_is_adequate,
    test_required_extensions, DeviceCtx, DeviceProbe, QueueFamily, SurfaceCapabilities,
    SurfaceFormat, SwapchainSupportDetails,
};
use vkw::ContextError;

fn family(queue_count: u32, graphics: bool, present: bool) -> QueueFamily {
    QueueFamily {
        queue_count,
        supports_graphics: graphics,
        supports_present: present,
    }
}

fn support(formats: usize, modes: usize) -> SwapchainSupportDetails {
    SwapchainSupportDetails {
        capabilities: SurfaceCapabilities {
            min_image_count: 2,
            max_image_count: 8,
            current_extent_width: 1280,
            current_extent_height: 720,
        },
        formats: (0..formats)
            .map(|i| SurfaceFormat {
                format: 40 + i as u32,
                color_space: 0,
            })
            .collect(),
        present_modes: (0..modes).map(|i| i as u32).collect(),
    }
}

fn capable_probe(name: &str) -> DeviceProbe {
    DeviceProbe {
        queue_families: Some(vec![family(1, true, true)]),
        extensions: Some(vec![b"VK_KHR_swapchain".to_vec()]),
        swapchain_support: Some(support(3, 2)),
        device_name: name.as_bytes().to_vec(),
    }
}

#[test]
fn required_extensions_name_swapchain() {
    let req = get_required_device_extensions();
    assert_eq!(req, vec![b"VK_KHR_swapchain".to_vec()]);
}

#[test]
fn queue_family_search_takes_first_matches() {
    let families = vec![
        family(1, false, true),
        family(1, true, false),
        family(1, true, true),
    ];
    assert_eq!(find_queue_families(&families), Some((1, 0)));
}

#[test]
fn queue_family_search_skips_empty_families() {
    let families = vec![family(0, true, true), family(1, true, true)];
    assert_eq!(find_queue_families(&families), Some((1, 1)));
}

#[test]
fn queue_family_search_needs_both_capabilities() {
    assert_eq!(find_queue_families(&vec![family(1, true, false)]), None);
    assert_eq!(find_queue_families(&vec![family(1, false, true)]), None);
    assert_eq!(find_queue_families(&vec![]), None);
}

#[test]
fn extension_membership_is_universal() {
    let supported = vec![b"VK_KHR_swapchain".to_vec(), b"VK_KHR_maintenance1".to_vec()];
    assert!(test_required_extensions(
        &supported,
        &vec![b"VK_KHR_swapchain".to_vec()]
    ));
    assert!(!test_required_extensions(
        &supported,
        &vec![b"VK_KHR_swapchain".to_vec(), b"VK_KHR_display".to_vec()]
    ));
    assert!(test_required_extensions(&supported, &vec![]));
}

#[test]
fn adequacy_needs_formats_and_modes() {
    assert!(swapchain_is_adequate(&support(1, 1)));
    assert!(!swapchain_is_adequate(&support(0, 2)));
    assert!(!swapchain_is_adequate(&support(3, 0)));
}

#[test]
fn empty_enumeration_fails_without_creation() {
    let probes: Vec<DeviceProbe> = vec![];
    let required = get_required_device_extensions();
    let r = select_physical_device(&probes, &required);
    assert_eq!(r.err(), Some(ContextError::NoSuitableDevice));
    let built = DeviceCtx::new(&probes, standard_context_config(vec![]));
    assert!(matches!(built, Err(ContextError::NoSuitableDevice)));
}

#[test]
fn missing_presentation_extension_rejects_device() {
    let mut probe = capable_probe("otherwise capable");
    probe.extensions = Some(vec![b"VK_KHR_maintenance1".to_vec()]);
    let required = get_required_device_extensions();
    let r = select_physical_device(&vec![probe], &required);
    assert_eq!(r.err(), Some(ContextError::NoSuitableDevice));
}

#[test]
fn first_adequate_device_wins() {
    let probes = vec![capable_probe("first"), capable_probe("second")];
    let required = get_required_device_extensions();
    let info = select_physical_device(&probes, &required).unwrap();
    assert_eq!(info.device_index, 0);
    assert_eq!(info.debug_device_name, b"first".to_vec());
}

#[test]
fn selection_scenario_shared_family() {
    // D1 offers no graphics queue; D2 has graphics and present on family 2,
    // the required extension, 3 formats and 2 present modes.
    let d1 = DeviceProbe {
        queue_families: Some(vec![family(1, false, true)]),
        extensions: Some(vec![b"VK_KHR_swapchain".to_vec()]),
        swapchain_support: Some(support(3, 2)),
        device_name: b"D1".to_vec(),
    };
    let d2 = DeviceProbe {
        queue_families: Some(vec![
            family(1, false, false),
            family(1, false, false),
            family(1, true, true),
        ]),
        extensions: Some(vec![b"VK_KHR_swapchain".to_vec()]),
        swapchain_support: Some(support(3, 2)),
        device_name: b"D2".to_vec(),
    };
    let probes = vec![d1, d2];
    let (ctx, request) = DeviceCtx::new(&probes, standard_context_config(vec![])).unwrap();
    assert_eq!(ctx.physical_info.device_index, 1);
    assert_eq!(ctx.physical_info.graphics_family_index, 2);
    assert_eq!(ctx.physical_info.present_family_index, 2);
    assert_eq!(ctx.physical_info.dedup_family_indices, vec![2]);
    assert_eq!(ctx.physical_info.debug_device_name, b"D2".to_vec());
    assert_eq!(ctx.logical_info.graphics_queue.family_index, 2);
    assert_eq!(ctx.logical_info.present_queue.family_index, 2);
    assert_eq!(ctx.logical_info.graphics_queue, ctx.logical_info.present_queue);
    assert_eq!(request.queue_descriptors.len(), 1);
    assert_eq!(request.queue_descriptors[0].family_index, 2);
    assert_eq!(request.queue_descriptors[0].queue_count, 1);
}

#[test]
fn distinct_families_dedup_to_two_entries() {
    let probe = DeviceProbe {
        queue_families: Some(vec![family(1, true, false), family(1, false, true)]),
        extensions: Some(vec![b"VK_KHR_swapchain".to_vec()]),
        swapchain_support: Some(support(1, 1)),
        device_name: b"split".to_vec(),
    };
    let required = get_required_device_extensions();
    let info = select_physical_device(&vec![probe], &required).unwrap();
    assert_eq!(info.graphics_family_index, 0);
    assert_eq!(info.present_family_index, 1);
    assert_eq!(info.dedup_family_indices, vec![0, 1]);
}

#[test]
fn failed_query_rejects_only_that_candidate() {
    let broken = DeviceProbe {
        queue_families: None,
        extensions: Some(vec![b"VK_KHR_swapchain".to_vec()]),
        swapchain_support: Some(support(3, 2)),
        device_name: b"broken".to_vec(),
    };
    let probes = vec![broken, capable_probe("good")];
    let required = get_required_device_extensions();
    let info = select_physical_device(&probes, &required).unwrap();
    assert_eq!(info.device_index, 1);
}

#[test]
fn logical_context_request_carries_configuration() {
    let probes = vec![capable_probe("gpu")];
    let required = get_required_device_extensions();
    let info = select_physical_device(&probes, &required).unwrap();
    let config = standard_context_config(vec![b"VK_LAYER_KHRONOS_validation".to_vec()]);
    let (request, logical) = create_logical_device(&info, config);
    assert_eq!(request.enabled_extensions, vec![b"VK_KHR_swapchain".to_vec()]);
    assert_eq!(
        request.enabled_layers,
        vec![b"VK_LAYER_KHRONOS_validation".to_vec()]
    );
    assert!(request.memory_model_enabled);
    assert_eq!(request.queue_descriptors.len(), 1);
    assert_eq!(logical.graphics_queue.queue_index, 0);
    assert_eq!(logical.present_queue.queue_index, 0);
}

#[test]
fn swapchain_support_query_is_idempotent() {
    let probes = vec![capable_probe("gpu")];
    let (ctx, _request) = DeviceCtx::new(&probes, standard_context_config(vec![])).unwrap();
    let first = ctx.current_swapchain_support(&probes).unwrap();
    let second = ctx.current_swapchain_support(&probes).unwrap();
    assert_eq!(first.formats, second.formats);
    assert_eq!(first.present_modes, second.present_modes);
    assert_eq!(first.capabilities, second.capabilities);
    assert_eq!(first.formats.len(), 3);
    assert_eq!(first.present_modes.len(), 2);
}

#[test]
fn swapchain_support_query_failure_surfaces() {
    let mut probe = capable_probe("gpu");
    let probes_ok = vec![probe.clone()];
    let (ctx, _request) = DeviceCtx::new(&probes_ok, standard_context_config(vec![])).unwrap();
    probe.swapchain_support = None;
    let probes_later = vec![probe];
    let r = ctx.current_swapchain_support(&probes_later);
    assert!(matches!(r, Err(ContextError::QueryFailure)));
}

#[test]
fn error_descriptions_name_the_missing_capability() {
    assert_eq!(
        ContextError::NoSuitableDevice.describe(),
        "no suitable physical device"
    );
    assert_eq!(
        ContextError::QueryFailure.describe(),
        "capability query failed"
    );
    assert_eq!(
        ContextError::ContextCreationFailure.describe(),
        "logical context creation failed"
    );
}
