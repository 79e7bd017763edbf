use embedder::backend::{select_backend, BackendKind};
use embedder::baton::{BatonPipeline, Disposition, HandoffMessage, RequestError, Stage};
use embedder::surface_tree::{FrameDone, SurfaceNode, SurfaceTree};
use embedder::swap_chain::SwapChain;

fn node(children: Vec<usize>, callbacks: Vec<u32>) -> SurfaceNode {
    SurfaceNode { children, callbacks }
}

#[test]
fn host_session_selects_nested_backend() {
    assert_eq!(select_backend(true), BackendKind::Nested);
    assert_eq!(select_backend(false), BackendKind::HardwareDirect);
    assert_ne!(select_backend(true), BackendKind::HardwareDirect);
}

#[test]
fn notifier_walks_pre_order_depth_first() {
    // 0 -> [1, 3], 1 -> [2]
    let mut tree = SurfaceTree {
        nodes: vec![
            node(vec![1, 3], vec![10, 11]),
            node(vec![2], vec![20]),
            node(vec![], vec![30]),
            node(vec![], vec![40, 41]),
        ],
    };
    let fired = tree.send_frames_surface_tree(0, 7);
    let ids: Vec<u32> = fired.iter().map(|f| f.callback).collect();
    assert_eq!(ids, vec![10, 11, 20, 30, 40, 41]);
    assert!(fired.iter().all(|f| f.time == 7));
    assert!(tree.nodes.iter().all(|n| n.callbacks.is_empty()));
}

#[test]
fn notifier_fires_each_callback_once() {
    let mut tree = SurfaceTree { nodes: vec![node(vec![1], vec![1]), node(vec![], vec![2])] };
    assert_eq!(tree.send_frames_surface_tree(0, 16).len(), 2);
    assert!(tree.send_frames_surface_tree(0, 32).is_empty());
}

#[test]
fn notifier_on_empty_node_is_a_no_op() {
    let mut tree = SurfaceTree { nodes: vec![node(vec![], vec![])] };
    let fired = tree.send_frames_surface_tree(0, 5);
    assert!(fired.is_empty());
    assert_eq!(tree.nodes[0].children.len(), 0);
}

#[test]
fn notifier_traverses_uncommitted_nodes() {
    let mut tree = SurfaceTree {
        nodes: vec![node(vec![1], vec![]), node(vec![2], vec![]), node(vec![], vec![9])],
    };
    let fired = tree.send_frames_surface_tree(0, 3);
    assert_eq!(fired, vec![FrameDone { callback: 9, time: 3 }]);
}

#[test]
fn notifier_leaves_other_subtrees_alone() {
    let mut tree = SurfaceTree {
        nodes: vec![node(vec![1, 2], vec![1]), node(vec![], vec![2]), node(vec![], vec![3])],
    };
    let fired = tree.send_frames_surface_tree(1, 4);
    assert_eq!(fired, vec![FrameDone { callback: 2, time: 4 }]);
    assert_eq!(tree.nodes[0].callbacks, vec![1]);
    assert_eq!(tree.nodes[2].callbacks, vec![3]);
}

#[test]
fn cycle_frame_presented_fires_callback() {
    let mut tree = SurfaceTree { nodes: vec![node(vec![], vec![])] };
    let mut pipe = BatonPipeline::new();
    let mut chain = SwapChain::new();
    let o = pipe.add_output();
    // client commits content with one queued callback
    tree.nodes[0].callbacks.push(99);
    assert!(pipe.commit_content(o));
    assert!(pipe.wants_frame(o));
    let b = pipe.request_frame(o, 0).unwrap();
    assert_eq!(pipe.outputs[o].stage, Stage::AwaitingRender);
    let d = pipe.on_message(HandoffMessage::Frame { buffer: 500, baton: b });
    assert_eq!(d, Disposition::Import { output: o, buffer: 500 });
    assert_eq!(pipe.outputs[o].stage, Stage::BufferReady);
    let released = chain.accept(500, Some(7));
    assert!(released.is_empty());
    assert_eq!(chain.pending.unwrap().buffer, 500);
    assert!(pipe.frame_scheduled(o));
    // nothing fires before the present-complete event
    assert_eq!(tree.nodes[0].callbacks, vec![99]);
    assert!(pipe.present_complete(o));
    assert_eq!(chain.confirm_presented(), None);
    let fired = tree.send_frames_surface_tree(0, 16);
    assert_eq!(fired, vec![FrameDone { callback: 99, time: 16 }]);
    assert_eq!(pipe.outputs[o].stage, Stage::Idle);
}

#[test]
fn cycle_no_frame_retires_baton() {
    let mut pipe = BatonPipeline::new();
    let o = pipe.add_output();
    let b = pipe.request_frame(o, 0).unwrap();
    let d = pipe.on_message(HandoffMessage::NoFrame { baton: b });
    assert_eq!(d, Disposition::Retired { output: o });
    assert_eq!(pipe.outputs[o].stage, Stage::Idle);
    assert!(!pipe.present_complete(o));
    assert!(pipe.commit_content(o));
    assert!(pipe.wants_frame(o));
    let b2 = pipe.request_frame(o, 1).unwrap();
    assert!(b2 > b);
}

#[test]
fn cycle_second_request_rejected() {
    let mut tree = SurfaceTree { nodes: vec![node(vec![], vec![])] };
    let mut pipe = BatonPipeline::new();
    let o = pipe.add_output();
    tree.nodes[0].callbacks.push(1);
    pipe.commit_content(o);
    let b = pipe.request_frame(o, 0).unwrap();
    tree.nodes[0].callbacks.push(2);
    pipe.commit_content(o);
    assert_eq!(pipe.request_frame(o, 1), Err(RequestError::Outstanding));
    assert_eq!(pipe.outputs[o].baton, b);
    let d = pipe.on_message(HandoffMessage::Frame { buffer: 3, baton: b });
    assert_eq!(d, Disposition::Import { output: o, buffer: 3 });
    assert!(pipe.frame_scheduled(o));
    assert!(pipe.present_complete(o));
    let fired = tree.send_frames_surface_tree(0, 33);
    assert_eq!(fired, vec![FrameDone { callback: 1, time: 33 }, FrameDone { callback: 2, time: 33 }]);
}

#[test]
fn cycle_removed_output_releases_late_frame() {
    let mut pipe = BatonPipeline::new();
    let o = pipe.add_output();
    let b = pipe.request_frame(o, 0).unwrap();
    assert!(pipe.remove_output(o));
    assert_eq!(pipe.abandoned, vec![b]);
    let d = pipe.on_message(HandoffMessage::Frame { buffer: 8, baton: b });
    assert_eq!(d, Disposition::Release { buffer: 8 });
    assert!(pipe.abandoned.is_empty());
    assert_eq!(pipe.request_frame(o, 1), Err(RequestError::UnknownOutput));
}

#[test]
fn unknown_baton_frame_is_released() {
    let mut pipe = BatonPipeline::new();
    let o = pipe.add_output();
    let b = pipe.request_frame(o, 0).unwrap();
    assert_eq!(pipe.on_message(HandoffMessage::Frame { buffer: 4, baton: b + 10 }), Disposition::Release { buffer: 4 });
    assert_eq!(pipe.on_message(HandoffMessage::NoFrame { baton: b + 10 }), Disposition::Ignored);
    assert_eq!(pipe.outputs[o].stage, Stage::AwaitingRender);
}

#[test]
fn duplicate_frame_is_not_imported_twice() {
    let mut pipe = BatonPipeline::new();
    let o = pipe.add_output();
    let b = pipe.request_frame(o, 0).unwrap();
    assert_eq!(pipe.on_message(HandoffMessage::Frame { buffer: 1, baton: b }), Disposition::Import { output: o, buffer: 1 });
    assert_eq!(pipe.on_message(HandoffMessage::Frame { buffer: 2, baton: b }), Disposition::Release { buffer: 2 });
}

#[test]
fn request_for_unknown_output_fails() {
    let mut pipe = BatonPipeline::new();
    assert_eq!(pipe.request_frame(0, 0), Err(RequestError::UnknownOutput));
    assert!(!pipe.commit_content(3));
}

#[test]
fn exhausted_baton_ids_are_reported() {
    let mut pipe = BatonPipeline::new();
    let o = pipe.add_output();
    pipe.next_baton = u64::MAX;
    assert_eq!(pipe.request_frame(o, 0), Err(RequestError::IdsExhausted));
    pipe.next_baton = u64::MAX - 1;
    assert_eq!(pipe.request_frame(o, 0), Ok(u64::MAX - 1));
}

#[test]
fn batons_grow_across_outputs() {
    let mut pipe = BatonPipeline::new();
    let a = pipe.add_output();
    let c = pipe.add_output();
    let b1 = pipe.request_frame(a, 0).unwrap();
    let b2 = pipe.request_frame(c, 0).unwrap();
    assert_eq!(b2, b1 + 1);
    assert_eq!(pipe.on_message(HandoffMessage::NoFrame { baton: b2 }), Disposition::Retired { output: c });
    assert_eq!(pipe.outputs[a].stage, Stage::AwaitingRender);
}

#[test]
fn import_failure_returns_output_to_idle() {
    let mut pipe = BatonPipeline::new();
    let mut chain = SwapChain::new();
    let o = pipe.add_output();
    let b = pipe.request_frame(o, 0).unwrap();
    pipe.on_message(HandoffMessage::Frame { buffer: 6, baton: b });
    assert_eq!(chain.accept(6, None), vec![6]);
    assert!(chain.pending.is_none());
    assert!(pipe.import_failed(o));
    assert_eq!(pipe.outputs[o].stage, Stage::Idle);
}

#[test]
fn swap_chain_releases_prior_buffer_only_after_present() {
    let mut chain = SwapChain::new();
    assert!(chain.accept(1, Some(100)).is_empty());
    assert_eq!(chain.confirm_presented(), None);
    assert!(chain.accept(2, Some(200)).is_empty());
    assert_eq!(chain.front.unwrap().buffer, 1);
    assert_eq!(chain.confirm_presented(), Some(1));
    assert_eq!(chain.front.unwrap().texture, 200);
    assert_eq!(chain.generation, 2);
    assert_eq!(chain.confirm_presented(), None);
}

#[test]
fn swap_chain_replaces_unpresented_frame() {
    let mut chain = SwapChain::new();
    chain.accept(1, Some(10));
    chain.confirm_presented();
    chain.accept(2, Some(20));
    assert_eq!(chain.accept(3, Some(30)), vec![2]);
    assert_eq!(chain.release_all(), vec![1, 3]);
    assert!(chain.front.is_none() && chain.pending.is_none());
}
