use embedder::baton::{BatonPipeline, Disposition, HandoffMessage, Stage};
use embedder::clients::ClientRegistry;
use embedder::reactor::Presenter;
use embedder::surface_tree::SurfaceNode;

#[test]
fn presenter_runs_a_full_cycle() {
    let mut p = Presenter::new();
    let o = p.add_output();
    let b = p.pipeline.request_frame(o, 0).unwrap();
    assert_eq!(p.pipeline.on_message(HandoffMessage::Frame { buffer: 11, baton: b }), Disposition::Import { output: o, buffer: 11 });
    assert!(p.finish_import(o, 11, Some(111)).is_empty());
    assert_eq!(p.pipeline.outputs[o].stage, Stage::Presented);
    assert_eq!(p.present_complete(o), (true, None));
    assert_eq!(p.chains[o].front.unwrap().buffer, 11);
    assert_eq!(p.present_complete(o), (false, None));
    p.pipeline.commit_content(o);
    let b2 = p.pipeline.request_frame(o, 16).unwrap();
    p.pipeline.on_message(HandoffMessage::Frame { buffer: 12, baton: b2 });
    assert!(p.finish_import(o, 12, Some(112)).is_empty());
    assert_eq!(p.present_complete(o), (true, Some(11)));
}

#[test]
fn presenter_failed_import_releases_buffer() {
    let mut p = Presenter::new();
    let o = p.add_output();
    let b = p.pipeline.request_frame(o, 0).unwrap();
    p.pipeline.on_message(HandoffMessage::Frame { buffer: 5, baton: b });
    assert_eq!(p.finish_import(o, 5, None), vec![5]);
    assert_eq!(p.pipeline.outputs[o].stage, Stage::Idle);
    assert!(p.chains[o].pending.is_none());
}

#[test]
fn presenter_rejects_import_without_ready_frame() {
    let mut p = Presenter::new();
    let o = p.add_output();
    assert_eq!(p.finish_import(o, 9, Some(1)), vec![9]);
    assert_eq!(p.finish_import(4, 8, Some(1)), vec![8]);
}

#[test]
fn presenter_remove_output_releases_held_buffers() {
    let mut p = Presenter::new();
    let o = p.add_output();
    let b = p.pipeline.request_frame(o, 0).unwrap();
    p.pipeline.on_message(HandoffMessage::Frame { buffer: 1, baton: b });
    p.finish_import(o, 1, Some(10));
    p.present_complete(o);
    p.pipeline.commit_content(o);
    let b2 = p.pipeline.request_frame(o, 1).unwrap();
    assert_eq!(p.remove_output(o), vec![1]);
    assert_eq!(p.pipeline.abandoned, vec![b2]);
    assert!(p.remove_output(o).is_empty());
}

#[test]
fn drain_keeps_channel_order() {
    let mut pipe = BatonPipeline::new();
    let a = pipe.add_output();
    let c = pipe.add_output();
    let ba = pipe.request_frame(a, 0).unwrap();
    let bc = pipe.request_frame(c, 0).unwrap();
    let msgs = vec![
        HandoffMessage::NoFrame { baton: bc },
        HandoffMessage::Frame { buffer: 70, baton: ba },
        HandoffMessage::Frame { buffer: 71, baton: ba },
    ];
    let d = pipe.drain_messages(&msgs);
    assert_eq!(
        d,
        vec![
            Disposition::Retired { output: c },
            Disposition::Import { output: a, buffer: 70 },
            Disposition::Release { buffer: 71 },
        ]
    );
}

#[test]
fn clients_connect_and_disconnect() {
    let mut reg = ClientRegistry::new();
    assert!(reg.connect(1));
    assert!(reg.connect(2));
    assert!(!reg.connect(1));
    reg.clients[0].surfaces.nodes.push(SurfaceNode { children: vec![], callbacks: vec![5] });
    assert!(reg.disconnect(1));
    assert!(!reg.disconnect(1));
    assert_eq!(reg.find(1), None);
    assert_eq!(reg.find(2), Some(0));
    assert!(reg.connect(1));
    assert!(reg.clients[1].surfaces.nodes.is_empty());
}
