//! Capability probing and physical-device selection.
//!
//! A candidate accelerator is described to the selector as plain data: its
//! queue families, its supported extension names, and the swapchain support
//! it reports for the presentation surface. The selector scans candidates in
//! enumeration order and accepts the first one that is adequate.

use vstd::assert_by_contradiction;
use vstd::prelude::*;

verus! {

/// One queue family of a candidate device, as reported by the driver:
/// how many queues it offers, whether its flags include graphics capability,
/// and whether it can present to the bound surface.
#[derive(Clone, Copy, PartialEq, Eq, Structural, Debug)]
pub struct QueueFamily {
    pub queue_count: u32,
    pub supports_graphics: bool,
    pub supports_present: bool,
}

/// A family is usable for graphics when it offers at least one queue and
/// carries the graphics capability flag.
pub open spec fn graphics_family(f: QueueFamily) -> bool {
    f.queue_count > 0 && f.supports_graphics
}

/// A family is usable for presentation when it offers at least one queue and
/// can present to the bound surface.
pub open spec fn present_family(f: QueueFamily) -> bool {
    f.queue_count > 0 && f.supports_present
}

pub open spec fn has_graphics_family(s: Seq<QueueFamily>) -> bool {
    exists|j: int| 0 <= j < s.len() && graphics_family(s[j])
}

pub open spec fn has_present_family(s: Seq<QueueFamily>) -> bool {
    exists|j: int| 0 <= j < s.len() && present_family(s[j])
}

/// `g` is the first family index, in scan order, usable for graphics.
pub open spec fn is_first_graphics(s: Seq<QueueFamily>, g: int) -> bool {
    &&& 0 <= g < s.len()
    &&& graphics_family(s[g])
    &&& forall|j: int| 0 <= j < g ==> !graphics_family(s[j])
}

/// `p` is the first family index, in scan order, usable for presentation.
pub open spec fn is_first_present(s: Seq<QueueFamily>, p: int) -> bool {
    &&& 0 <= p < s.len()
    &&& present_family(s[p])
    &&& forall|j: int| 0 <= j < p ==> !present_family(s[j])
}

/// Scans the queue-family list in index order and records the first family
/// usable for graphics and, independently, the first family usable for
/// presentation. Returns `None` unless both are found; they may coincide.
/// First match wins: there is no scoring beyond presence.
pub fn find_queue_families(families: &Vec<QueueFamily>) -> (r: Option<(u32, u32)>)
    requires
        families@.len() <= u32::MAX,
    ensures
        r is Some <==> has_graphics_family(families@) && has_present_family(families@),
        (match r {
            Some(gp) => is_first_graphics(families@, gp.0 as int)
                && is_first_present(families@, gp.1 as int),
            None => true,
        }),
{
    let n = families.len();
    let mut graphics: Option<u32> = None;
    let mut present: Option<u32> = None;
    let mut idx: usize = 0;
    while idx < n
        invariant
            n == families@.len(),
            n <= u32::MAX,
            idx <= n,
            (match graphics {
                Some(g) => is_first_graphics(families@, g as int),
                None => forall|j: int| 0 <= j < idx ==> !graphics_family(families@[j]),
            }),
            (match present {
                Some(p) => is_first_present(families@, p as int),
                None => forall|j: int| 0 <= j < idx ==> !present_family(families@[j]),
            }),
            !(graphics is Some && present is Some),
        decreases n - idx,
    {
        let f = families[idx];
        if f.queue_count > 0 {
            if f.supports_graphics && graphics.is_none() {
                graphics = Some(idx as u32);
            }
            if f.supports_present && present.is_none() {
                present = Some(idx as u32);
            }
        }
        if graphics.is_some() && present.is_some() {
            return Some((graphics.unwrap(), present.unwrap()));
        }
        idx = idx + 1;
    }
    None
}

/// The supported-extension list `s` contains the name `x`.
pub open spec fn contains_name(s: Seq<Vec<u8>>, x: Seq<u8>) -> bool {
    exists|j: int| 0 <= j < s.len() && s[j]@ == x
}

/// Every required extension name appears in the supported list.
pub open spec fn all_extensions_supported(supported: Seq<Vec<u8>>, required: Seq<Vec<u8>>) -> bool {
    forall|k: int| 0 <= k < required.len() ==> contains_name(supported, #[trigger] required[k]@)
}

fn contains_extension(supported: &Vec<Vec<u8>>, name: &Vec<u8>) -> (r: bool)
    ensures
        r == contains_name(supported@, name@),
{
    let n = supported.len();
    let mut idx: usize = 0;
    while idx < n
        invariant
            n == supported@.len(),
            idx <= n,
            forall|j: int| 0 <= j < idx ==> supported@[j]@ != name@,
        decreases n - idx,
    {
        let same = &supported[idx] == name;
        proof {
            assert_by_contradiction!(same == (supported@[idx as int]@ == name@), {
                assert(supported@[idx as int]@ =~= name@);
            });
        }
        if same {
            return true;
        }
        idx = idx + 1;
    }
    false
}

/// Checks universal membership of the required-extension set in the device's
/// supported extension list. Returns true only if all required names are present.
pub fn test_required_extensions(supported: &Vec<Vec<u8>>, required: &Vec<Vec<u8>>) -> (r: bool)
    ensures
        r == all_extensions_supported(supported@, required@),
{
    let n = required.len();
    let mut idx: usize = 0;
    while idx < n
        invariant
            n == required@.len(),
            idx <= n,
            forall|k: int| 0 <= k < idx ==> contains_name(supported@, #[trigger] required@[k]@),
        decreases n - idx,
    {
        if !contains_extension(supported, &required[idx]) {
            return false;
        }
        idx = idx + 1;
    }
    true
}

/// Surface capability limits reported for a (device, surface) pair.
#[derive(Clone, Copy, PartialEq, Eq, Structural, Debug)]
pub struct SurfaceCapabilities {
    pub min_image_count: u32,
    pub max_image_count: u32,
    pub current_extent_width: u32,
    pub current_extent_height: u32,
}

/// A supported surface format: pixel format and colour space.
#[derive(Clone, Copy, PartialEq, Eq, Structural, Debug)]
pub struct SurfaceFormat {
    pub format: u32,
    pub color_space: u32,
}

/// Capabilities, supported surface formats and supported present modes for a
/// (device, surface) pair. Re-queryable at any time; not cached permanently,
/// because it can change with the surface (e.g. on a window resize).
#[derive(Clone, PartialEq, Eq, Debug)]
pub struct SwapchainSupportDetails {
    pub capabilities: SurfaceCapabilities,
    pub formats: Vec<SurfaceFormat>,
    pub present_modes: Vec<u32>,
}

/// Swapchain support is adequate when at least one surface format and at
/// least one present mode are supported. Capability limit values are not
/// further constrained at selection time.
pub open spec fn swapchain_adequate(d: SwapchainSupportDetails) -> bool {
    d.formats@.len() > 0 && d.present_modes@.len() > 0
}

pub fn swapchain_is_adequate(d: &SwapchainSupportDetails) -> (r: bool)
    ensures
        r == swapchain_adequate(*d),
{
    d.formats.len() > 0 && d.present_modes.len() > 0
}

/// Everything the selector needs to know about one enumerated candidate.
/// Each field holds the outcome of one capability query against the driver;
/// `None` records that the query itself failed, which rejects the candidate
/// without aborting the search.
#[derive(Clone, Debug)]
pub struct DeviceProbe {
    pub queue_families: Option<Vec<QueueFamily>>,
    pub extensions: Option<Vec<Vec<u8>>>,
    pub swapchain_support: Option<SwapchainSupportDetails>,
    pub device_name: Vec<u8>,
}

/// A candidate is adequate when all three probes succeeded and show: a
/// graphics family and a present family, every required extension, and a
/// non-empty format set and present-mode set.
pub open spec fn probe_adequate(p: DeviceProbe, required: Seq<Vec<u8>>) -> bool {
    match (p.queue_families, p.extensions, p.swapchain_support) {
        (Some(fams), Some(exts), Some(sup)) => {
            &&& has_graphics_family(fams@)
            &&& has_present_family(fams@)
            &&& all_extensions_supported(exts@, required)
            &&& swapchain_adequate(sup)
        },
        _ => false,
    }
}

/// The deduplicated queue-family index set: a single entry when graphics and
/// present coincide, else the two distinct entries in (graphics, present) order.
pub open spec fn dedup_spec(g: u32, p: u32) -> Seq<u32> {
    if g == p {
        seq![g]
    } else {
        seq![g, p]
    }
}

fn dedup_family_indices(g: u32, p: u32) -> (r: Vec<u32>)
    ensures
        r@ == dedup_spec(g, p),
{
    let mut r: Vec<u32> = Vec::new();
    r.push(g);
    if g != p {
        r.push(p);
    }
    proof {
        assert(r@ =~= dedup_spec(g, p));
    }
    r
}

/// The immutable record produced for the winning candidate. Never mutated.
#[derive(Clone, Debug)]
pub struct PhysicalDeviceInfo {
    /// Position of the device in the enumeration handed to the selector.
    pub device_index: usize,
    pub graphics_family_index: u32,
    pub present_family_index: u32,
    pub dedup_family_indices: Vec<u32>,
    pub debug_device_name: Vec<u8>,
}

/// `info` faithfully describes candidate `p` standing at `index`: the family
/// indices are the first usable ones in scan order, the deduplicated index
/// set is derived from them, and the name is carried over.
pub open spec fn info_for_probe(info: PhysicalDeviceInfo, p: DeviceProbe, index: int) -> bool {
    match p.queue_families {
        Some(fams) => {
            &&& info.device_index == index
            &&& is_first_graphics(fams@, info.graphics_family_index as int)
            &&& is_first_present(fams@, info.present_family_index as int)
            &&& info.dedup_family_indices@ == dedup_spec(
                info.graphics_family_index,
                info.present_family_index,
            )
            &&& info.debug_device_name@ == p.device_name@
        },
        None => false,
    }
}

fn copy_vals<T: Copy>(v: &Vec<T>) -> (r: Vec<T>)
    ensures
        r@ == v@,
{
    let n = v.len();
    let mut r: Vec<T> = Vec::new();
    let mut idx: usize = 0;
    while idx < n
        invariant
            n == v@.len(),
            idx <= n,
            r@ == v@.subrange(0, idx as int),
        decreases n - idx,
    {
        r.push(v[idx]);
        proof {
            assert(r@ =~= v@.subrange(0, idx as int + 1));
        }
        idx = idx + 1;
    }
    proof {
        assert(v@.subrange(0, n as int) =~= v@);
    }
    r
}

/// Evaluates candidates in enumeration order and returns a record of the
/// **first** adequate one — a satisficing search, with no performance
/// scoring. A failed capability query rejects only that candidate. Fails
/// with `NoSuitableDevice` when the enumeration is empty or no candidate
/// is adequate; that is fatal to startup and not retryable.
pub fn select_physical_device(
    probes: &Vec<DeviceProbe>,
    required_extensions: &Vec<Vec<u8>>,
) -> (r: Result<PhysicalDeviceInfo, crate::ContextError>)
    requires
        forall|i: int| 0 <= i < probes@.len() ==> (match #[trigger] probes@[i].queue_families {
            Some(fams) => fams@.len() <= u32::MAX,
            None => true,
        }),
    ensures
        r is Ok <==> exists|i: int|
            0 <= i < probes@.len() && probe_adequate(#[trigger] probes@[i], required_extensions@),
        (match r {
            Ok(info) => {
                &&& info.device_index < probes@.len()
                &&& probe_adequate(probes@[info.device_index as int], required_extensions@)
                &&& forall|j: int|
                    0 <= j < info.device_index ==> !probe_adequate(
                        #[trigger] probes@[j],
                        required_extensions@,
                    )
                &&& info_for_probe(info, probes@[info.device_index as int], info.device_index as int)
            },
            Err(e) => e == crate::ContextError::NoSuitableDevice,
        }),
{
    let n = probes.len();
    let mut idx: usize = 0;
    while idx < n
        invariant
            n == probes@.len(),
            idx <= n,
            forall|i: int| 0 <= i < n ==> (match #[trigger] probes@[i].queue_families {
                Some(fams) => fams@.len() <= u32::MAX,
                None => true,
            }),
            forall|j: int| 0 <= j < idx ==> !probe_adequate(#[trigger] probes@[j], required_extensions@),
        decreases n - idx,
    {
        let p = &probes[idx];
        let mut accepted: Option<(u32, u32)> = None;
        match &p.queue_families {
            Some(fams) => {
                match find_queue_families(fams) {
                    Some(gp) => {
                        let exts_ok = match &p.extensions {
                            Some(exts) => test_required_extensions(exts, required_extensions),
                            None => false,
                        };
                        if exts_ok {
                            let adequate = match &p.swapchain_support {
                                Some(sup) => swapchain_is_adequate(sup),
                                None => false,
                            };
                            if adequate {
                                accepted = Some(gp);
                            }
                        }
                    },
                    None => {},
                }
            },
            None => {},
        }
        match accepted {
            Some(gp) => {
                let (g, pres) = gp;
                let info = PhysicalDeviceInfo {
                    device_index: idx,
                    graphics_family_index: g,
                    present_family_index: pres,
                    dedup_family_indices: dedup_family_indices(g, pres),
                    debug_device_name: copy_vals(&p.device_name),
                };
                return Ok(info);
            },
            None => {},
        }
        proof {
            assert(!probe_adequate(probes@[idx as int], required_extensions@));
        }
        idx = idx + 1;
    }
    Err(crate::ContextError::NoSuitableDevice)
}


/// Deduplication law: the family-index set produced for a winning candidate
/// has exactly one element when the graphics and present indices coincide,
/// and otherwise exactly two, each appearing once.
pub proof fn lemma_dedup_family_indices(g: u32, p: u32)
    ensures
        g == p ==> dedup_spec(g, p).len() == 1 && dedup_spec(g, p)[0] == g,
        g != p ==> dedup_spec(g, p).len() == 2 && dedup_spec(g, p)[0] == g && dedup_spec(g, p)[1]
            == p && dedup_spec(g, p)[0] != dedup_spec(g, p)[1],
{
}

/// Name of the swap-presentation extension every candidate must support.
pub open spec fn swapchain_extension_name() -> Seq<u8> {
    seq![
        'V' as u8,
        'K' as u8,
        '_' as u8,
        'K' as u8,
        'H' as u8,
        'R' as u8,
        '_' as u8,
        's' as u8,
        'w' as u8,
        'a' as u8,
        'p' as u8,
        'c' as u8,
        'h' as u8,
        'a' as u8,
        'i' as u8,
        'n' as u8,
    ]
}

/// The fixed required-extension set: presentation needs the swapchain
/// extension, and nothing else is demanded of a device.
pub fn get_required_device_extensions() -> (r: Vec<Vec<u8>>)
    ensures
        r@.len() == 1,
        r@[0]@ == swapchain_extension_name(),
{
    let mut name: Vec<u8> = Vec::new();
    name.push('V' as u8);
    name.push('K' as u8);
    name.push('_' as u8);
    name.push('K' as u8);
    name.push('H' as u8);
    name.push('R' as u8);
    name.push('_' as u8);
    name.push('s' as u8);
    name.push('w' as u8);
    name.push('a' as u8);
    name.push('p' as u8);
    name.push('c' as u8);
    name.push('h' as u8);
    name.push('a' as u8);
    name.push('i' as u8);
    name.push('n' as u8);
    proof {
        assert(name@ =~= swapchain_extension_name());
    }
    let mut r: Vec<Vec<u8>> = Vec::new();
    r.push(name);
    r
}

/// The bring-up configuration, threaded explicitly into selection and
/// logical-context creation rather than kept as ambient state.
#[derive(Clone, Debug)]
pub struct ContextConfig {
    /// Capability identifiers every candidate device must support.
    pub required_extensions: Vec<Vec<u8>>,
    /// Validation-layer identifiers enabled on the instance, passed through
    /// verbatim to logical-context creation.
    pub enabled_layers: Vec<Vec<u8>>,
    /// Whether to enable the memory-model consistency feature.
    pub enable_memory_model: bool,
}

/// The standard configuration: the fixed required-extension set, the given
/// layers, and the memory-model consistency feature forced on — it is
/// required for correct cross-queue synchronization by the renderer.
pub fn standard_context_config(enabled_layers: Vec<Vec<u8>>) -> (r: ContextConfig)
    ensures
        r.required_extensions@.len() == 1,
        r.required_extensions@[0]@ == swapchain_extension_name(),
        r.enabled_layers == enabled_layers,
        r.enable_memory_model,
{
    ContextConfig {
        required_extensions: get_required_device_extensions(),
        enabled_layers,
        enable_memory_model: true,
    }
}

/// One queue-creation descriptor: a single queue, at maximum priority,
/// on the given family.
#[derive(Clone, Copy, PartialEq, Eq, Structural, Debug)]
pub struct QueueDescriptor {
    pub family_index: u32,
    pub queue_count: u32,
}

/// A queue retrieved from the opened context, identified by its family and
/// its position within the family.
#[derive(Clone, Copy, PartialEq, Eq, Structural, Debug)]
pub struct QueueHandle {
    pub family_index: u32,
    pub queue_index: u32,
}

/// Everything the driver needs to open the logical execution context.
#[derive(Clone, Debug)]
pub struct LogicalContextRequest {
    pub queue_descriptors: Vec<QueueDescriptor>,
    pub enabled_extensions: Vec<Vec<u8>>,
    pub enabled_layers: Vec<Vec<u8>>,
    /// The memory-model consistency feature, forced on by the standard
    /// configuration.
    pub memory_model_enabled: bool,
}

/// The queues retrieved from the opened logical context. Graphics and
/// present may be the same underlying queue when the family indices coincide.
#[derive(Clone, Copy, PartialEq, Eq, Structural, Debug)]
pub struct LogicalDeviceInfo {
    pub graphics_queue: QueueHandle,
    pub present_queue: QueueHandle,
}

/// One descriptor per deduplicated family index, in order, each requesting
/// a single queue.
pub open spec fn descriptors_for(dedup: Seq<u32>) -> Seq<QueueDescriptor> {
    dedup.map_values(|f: u32| QueueDescriptor { family_index: f, queue_count: 1 })
}

/// Builds the logical-context request for the selected device — one
/// single-queue descriptor per deduplicated family index, the required
/// extension set, the enabled layers, and the memory-model flag — and names
/// the queue handles to retrieve: queue 0 of the graphics family and queue 0
/// of the present family.
pub fn create_logical_device(physical_info: &PhysicalDeviceInfo, config: ContextConfig) -> (r: (
    LogicalContextRequest,
    LogicalDeviceInfo,
))
    ensures
        r.0.queue_descriptors@ == descriptors_for(physical_info.dedup_family_indices@),
        r.0.enabled_extensions == config.required_extensions,
        r.0.enabled_layers == config.enabled_layers,
        r.0.memory_model_enabled == config.enable_memory_model,
        r.1.graphics_queue == (QueueHandle {
            family_index: physical_info.graphics_family_index,
            queue_index: 0,
        }),
        r.1.present_queue == (QueueHandle {
            family_index: physical_info.present_family_index,
            queue_index: 0,
        }),
{
    let m = physical_info.dedup_family_indices.len();
    let mut queue_descriptors: Vec<QueueDescriptor> = Vec::new();
    let mut k: usize = 0;
    while k < m
        invariant
            m == physical_info.dedup_family_indices@.len(),
            k <= m,
            queue_descriptors@.len() == k,
            forall|j: int| 0 <= j < k ==> queue_descriptors@[j] == (QueueDescriptor {
                family_index: physical_info.dedup_family_indices@[j],
                queue_count: 1,
            }),
        decreases m - k,
    {
        queue_descriptors.push(
            QueueDescriptor {
                family_index: physical_info.dedup_family_indices[k],
                queue_count: 1,
            },
        );
        k = k + 1;
    }
    proof {
        assert(queue_descriptors@ =~= descriptors_for(physical_info.dedup_family_indices@));
    }
    let request = LogicalContextRequest {
        queue_descriptors,
        enabled_extensions: config.required_extensions,
        enabled_layers: config.enabled_layers,
        memory_model_enabled: config.enable_memory_model,
    };
    let logical_info = LogicalDeviceInfo {
        graphics_queue: QueueHandle {
            family_index: physical_info.graphics_family_index,
            queue_index: 0,
        },
        present_queue: QueueHandle {
            family_index: physical_info.present_family_index,
            queue_index: 0,
        },
    };
    (request, logical_info)
}


/// The device execution context: the immutable record of the selected
/// physical device together with the queue handles named for the opened
/// logical context.
#[derive(Clone, Debug)]
pub struct DeviceCtx {
    pub physical_info: PhysicalDeviceInfo,
    pub logical_info: LogicalDeviceInfo,
}

/// `r` is what a swapchain-support query for `ctx`'s device returns against
/// the snapshot `probes`: the recorded support details on success, and
/// `QueryFailure` exactly when the underlying query failed.
pub open spec fn swapchain_support_result(
    ctx: DeviceCtx,
    probes: Seq<DeviceProbe>,
    r: Result<SwapchainSupportDetails, crate::ContextError>,
) -> bool {
    match (r, probes[ctx.physical_info.device_index as int].swapchain_support) {
        (Ok(d), Some(src)) => d.capabilities == src.capabilities && d.formats@ == src.formats@
            && d.present_modes@ == src.present_modes@,
        (Err(e), None) => e == crate::ContextError::QueryFailure,
        _ => false,
    }
}

impl DeviceCtx {
    /// Selects the first adequate physical device, in enumeration order, and
    /// builds the logical-context request and queue handles for it. Fails
    /// with `NoSuitableDevice` exactly when no candidate is adequate; no
    /// context creation is attempted in that case.
    pub fn new(probes: &Vec<DeviceProbe>, config: ContextConfig) -> (r: Result<
        (DeviceCtx, LogicalContextRequest),
        crate::ContextError,
    >)
        requires
            forall|i: int| 0 <= i < probes@.len() ==> (match #[trigger] probes@[i].queue_families {
                Some(fams) => fams@.len() <= u32::MAX,
                None => true,
            }),
        ensures
            r is Ok <==> exists|i: int|
                0 <= i < probes@.len() && probe_adequate(
                    #[trigger] probes@[i],
                    config.required_extensions@,
                ),
            (match r {
                Ok(pair) => {
                    let ix = pair.0.physical_info.device_index as int;
                    &&& ix < probes@.len()
                    &&& probe_adequate(probes@[ix], config.required_extensions@)
                    &&& forall|j: int|
                        0 <= j < ix ==> !probe_adequate(
                            #[trigger] probes@[j],
                            config.required_extensions@,
                        )
                    &&& info_for_probe(pair.0.physical_info, probes@[ix], ix)
                    &&& pair.1.queue_descriptors@ == descriptors_for(
                        pair.0.physical_info.dedup_family_indices@,
                    )
                    &&& pair.1.enabled_extensions == config.required_extensions
                    &&& pair.1.enabled_layers == config.enabled_layers
                    &&& pair.1.memory_model_enabled == config.enable_memory_model
                    &&& pair.0.logical_info.graphics_queue == (QueueHandle {
                        family_index: pair.0.physical_info.graphics_family_index,
                        queue_index: 0,
                    })
                    &&& pair.0.logical_info.present_queue == (QueueHandle {
                        family_index: pair.0.physical_info.present_family_index,
                        queue_index: 0,
                    })
                },
                Err(e) => e == crate::ContextError::NoSuitableDevice,
            }),
    {
        let physical_info = match select_physical_device(probes, &config.required_extensions) {
            Ok(info) => info,
            Err(e) => {
                return Err(e);
            },
        };
        let (request, logical_info) = create_logical_device(&physical_info, config);
        Ok((DeviceCtx { physical_info, logical_info }, request))
    }

    /// Reads the current swapchain support for the selected device from a
    /// fresh probe snapshot. A pure query with no side effects, safe to call
    /// repeatedly, including after context creation, to react to surface
    /// changes.
    pub fn current_swapchain_support(&self, probes: &Vec<DeviceProbe>) -> (r: Result<
        SwapchainSupportDetails,
        crate::ContextError,
    >)
        requires
            self.physical_info.device_index < probes@.len(),
        ensures
            swapchain_support_result(*self, probes@, r),
    {
        match &probes[self.physical_info.device_index].swapchain_support {
            Some(src) => Ok(
                SwapchainSupportDetails {
                    capabilities: src.capabilities,
                    formats: copy_vals(&src.formats),
                    present_modes: copy_vals(&src.present_modes),
                },
            ),
            None => Err(crate::ContextError::QueryFailure),
        }
    }
}

/// Idempotence law: two swapchain-support queries against the same probe
/// snapshot — immediate succession, no intervening state change — return
/// identical capabilities, format sets and present-mode sets.
pub proof fn lemma_swapchain_support_idempotent(
    ctx: DeviceCtx,
    probes: Seq<DeviceProbe>,
    r1: Result<SwapchainSupportDetails, crate::ContextError>,
    r2: Result<SwapchainSupportDetails, crate::ContextError>,
)
    requires
        0 <= ctx.physical_info.device_index < probes.len(),
        swapchain_support_result(ctx, probes, r1),
        swapchain_support_result(ctx, probes, r2),
    ensures
        (match (r1, r2) {
            (Ok(a), Ok(b)) => a.capabilities == b.capabilities && a.formats@ == b.formats@
                && a.present_modes@ == b.present_modes@,
            (Err(e1), Err(e2)) => e1 == e2,
            _ => false,
        }),
{
}

} // verus!
