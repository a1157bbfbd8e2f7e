use vkw::chain::{ContextChain, NodeState};

/// Builds the four-context chain Surface <- Device <- Swapchain <- RenderPass,
/// each node activated, each with one outside handle.
fn bring_up_chain() -> (ContextChain, usize, usize, usize, usize) {
    let mut chain = ContextChain::new();
    let surface = chain.create_node(None);
    chain.activate(surface);
    let device = chain.create_node(Some(surface));
    chain.activate(device);
    let swapchain = chain.create_node(Some(device));
    chain.activate(swapchain);
    let render_pass = chain.create_node(Some(swapchain));
    chain.activate(render_pass);
    (chain, surface, device, swapchain, render_pass)
}

#[test]
fn counts_reflect_handles_and_children() {
    let (chain, surface, device, swapchain, render_pass) = bring_up_chain();
    assert_eq!(chain.nodes[surface].ref_count, 2);
    assert_eq!(chain.nodes[device].ref_count, 2);
    assert_eq!(chain.nodes[swapchain].ref_count, 2);
    assert_eq!(chain.nodes[render_pass].ref_count, 1);
    assert!(chain.nodes.iter().all(|n| n.state == NodeState::Active));
    assert!(chain.teardown_log.is_empty());
}

#[test]
fn teardown_in_reverse_creation_order_when_leaf_drops_last() {
    let (mut chain, surface, device, swapchain, render_pass) = bring_up_chain();
    // Outside handles on the ancestors go first; nothing is released while
    // a descendant still holds its reference.
    chain.drop_handle(surface);
    chain.drop_handle(device);
    chain.drop_handle(swapchain);
    assert!(chain.teardown_log.is_empty());
    assert!(chain.nodes.iter().all(|n| n.state == NodeState::Active));
    // Dropping the leaf's handle releases the whole chain, child first.
    chain.drop_handle(render_pass);
    assert_eq!(chain.teardown_log, vec![render_pass, swapchain, device, surface]);
    assert!(chain.nodes.iter().all(|n| n.state == NodeState::Destroyed));
}

#[test]
fn teardown_order_is_reverse_whatever_the_drop_order() {
    let (mut chain, surface, device, swapchain, render_pass) = bring_up_chain();
    // Drop leaf-first instead: each node is released as its last reference goes.
    chain.drop_handle(render_pass);
    assert_eq!(chain.teardown_log, vec![render_pass]);
    chain.drop_handle(swapchain);
    assert_eq!(chain.teardown_log, vec![render_pass, swapchain]);
    chain.drop_handle(surface);
    assert_eq!(chain.teardown_log, vec![render_pass, swapchain]);
    chain.drop_handle(device);
    assert_eq!(chain.teardown_log, vec![render_pass, swapchain, device, surface]);
}

#[test]
fn shared_holder_keeps_parent_alive() {
    let mut chain = ContextChain::new();
    let device = chain.create_node(None);
    chain.activate(device);
    // Two independently extended chains rooted at the same context.
    let swapchain_a = chain.create_node(Some(device));
    chain.activate(swapchain_a);
    let swapchain_b = chain.create_node(Some(device));
    chain.activate(swapchain_b);
    chain.drop_handle(device);
    chain.drop_handle(swapchain_a);
    assert_eq!(chain.teardown_log, vec![swapchain_a]);
    assert_eq!(chain.nodes[device].state, NodeState::Active);
    chain.drop_handle(swapchain_b);
    assert_eq!(chain.teardown_log, vec![swapchain_a, swapchain_b, device]);
}

#[test]
fn cloned_handle_defers_release() {
    let mut chain = ContextChain::new();
    let root = chain.create_node(None);
    chain.activate(root);
    chain.clone_handle(root);
    assert_eq!(chain.nodes[root].external_refs, 2);
    chain.drop_handle(root);
    assert_eq!(chain.nodes[root].state, NodeState::Active);
    chain.drop_handle(root);
    assert_eq!(chain.nodes[root].state, NodeState::Destroyed);
    assert_eq!(chain.teardown_log, vec![root]);
}

#[test]
fn abandoned_reservation_leaks_nothing() {
    let mut chain = ContextChain::new();
    let root = chain.create_node(None);
    chain.activate(root);
    // A construction step reserves its slot, then fails before acquiring the
    // native resource: dropping the handle retires the slot with no teardown
    // entry and returns the parent's reference.
    let failed = chain.create_node(Some(root));
    assert_eq!(chain.nodes[failed].state, NodeState::Uninitialized);
    assert_eq!(chain.nodes[root].ref_count, 2);
    chain.drop_handle(failed);
    assert_eq!(chain.nodes[failed].state, NodeState::Destroyed);
    assert!(chain.teardown_log.is_empty());
    assert_eq!(chain.nodes[root].ref_count, 1);
    chain.drop_handle(root);
    assert_eq!(chain.teardown_log, vec![root]);
}
