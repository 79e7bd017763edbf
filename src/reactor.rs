use vstd::prelude::*;

use crate::baton::{BatonPipeline, OutputSlot, Stage};
use crate::swap_chain::{held, SwapChain};

verus! {

/// The reactor's presentation state: the baton table and one swap chain per
/// output, both indexed by output number.
pub struct Presenter {
    pub pipeline: BatonPipeline,
    pub chains: Vec<SwapChain>,
}

impl Presenter {
    pub open spec fn wf(&self) -> bool {
        &&& self.pipeline.wf()
        &&& self.chains.len() == self.pipeline.outputs.len()
    }

    /// No outputs yet.
    pub fn new() -> (r: Self)
        ensures
            r.wf(),
            r.pipeline.outputs@.len() == 0,
    {
        Presenter { pipeline: BatonPipeline::new(), chains: Vec::new() }
    }

    /// Adds an output with an empty swap chain; it is due for a forced redraw.
    pub fn add_output(&mut self) -> (r: usize)
        requires
            old(self).wf(),
            old(self).pipeline.outputs.len() < usize::MAX,
        ensures
            final(self).wf(),
            r == old(self).pipeline.outputs.len(),
            final(self).pipeline.outputs[r as int].stage == Stage::Idle,
            final(self).pipeline.outputs[r as int].content_pending,
            final(self).chains[r as int].front is None,
            final(self).chains[r as int].pending is None,
    {
        let r = self.pipeline.add_output();
        self.chains.push(SwapChain::new());
        r
    }

    /// Hands the buffer of `output`'s frame, and the outcome of importing it,
    /// to the output's swap chain. On a successful import the frame is
    /// scheduled; a failed import counts as a declined frame and returns the
    /// output to `Idle`. A buffer for an output that has no frame ready is not
    /// held. Returns the buffers to release now.
    pub fn finish_import(&mut self, output: usize, buffer: u64, texture: Option<u64>) -> (r: Vec<
        u64,
    >)
        requires
            old(self).wf(),
        ensures
            final(self).wf(),
            ({
                let ready = output < old(self).pipeline.outputs.len()
                    && old(self).pipeline.outputs[output as int].connected
                    && old(self).pipeline.outputs[output as int].stage == Stage::BufferReady;
                &&& !ready ==> r@ == seq![buffer] && final(self).chains@ == old(self).chains@
                    && final(self).pipeline.outputs@ == old(self).pipeline.outputs@
                &&& ready && texture is None ==> r@ == seq![buffer] && final(self).chains@ == old(self).chains@ && final(self).pipeline.outputs@ == old(self).pipeline.outputs@.update(
                    output as int,
                    OutputSlot { stage: Stage::Idle, ..old(self).pipeline.outputs[output as int] },
                )
                &&& ready && texture is Some ==> final(self).chains[output as int].pending == Some(
                    crate::swap_chain::SwapSlot {
                        texture: texture->0,
                        buffer,
                        generation: crate::swap_chain::next_generation(
                            old(self).chains[output as int].generation,
                        ),
                    },
                ) && final(self).chains[output as int].front == old(self).chains[output as int].front && final(self).pipeline.outputs@ == old(self).pipeline.outputs@.update(
                    output as int,
                    OutputSlot {
                        stage: Stage::Presented,
                        ..old(self).pipeline.outputs[output as int]
                    },
                )
                &&& ready ==> (r@ + final(self).chains[output as int].held()).to_multiset()
                    == old(self).chains[output as int].held().push(buffer).to_multiset()
            }),
            final(self).pipeline.abandoned == old(self).pipeline.abandoned,
            final(self).pipeline.next_baton == old(self).pipeline.next_baton,
    {
        if !(output < self.pipeline.outputs.len() && self.pipeline.outputs[output].connected
            && self.pipeline.outputs[output].stage == Stage::BufferReady) {
            let mut r: Vec<u64> = Vec::new();
            r.push(buffer);
            return r;
        }
        let mut chain = self.chains[output];
        let r = chain.accept(buffer, texture);
        match texture {
            Some(_) => {
                self.chains.set(output, chain);
                self.pipeline.frame_scheduled(output);
            },
            None => {
                self.pipeline.import_failed(output);
            },
        }
        r
    }

    /// The backend reports that `output`'s vsync, or present-complete event,
    /// has come. Where a scheduled frame was waiting it is now on screen: the
    /// output returns to `Idle`, the result's first part is true (the frame's
    /// callbacks are due) and its second is the replaced buffer to release, if
    /// any. Otherwise nothing changes.
    pub fn present_complete(&mut self, output: usize) -> (r: (bool, Option<u64>))
        requires
            old(self).wf(),
        ensures
            final(self).wf(),
            r.0 == (output < old(self).pipeline.outputs.len()
                && old(self).pipeline.outputs[output as int].connected
                && old(self).pipeline.outputs[output as int].stage == Stage::Presented),
            r.0 ==> final(self).pipeline.outputs@ == old(self).pipeline.outputs@.update(
                output as int,
                OutputSlot { stage: Stage::Idle, ..old(self).pipeline.outputs[output as int] },
            ),
            r.0 && old(self).chains[output as int].pending is Some ==> final(self).chains[output as int].front == old(self).chains[output as int].pending && r.1
                == match old(self).chains[output as int].front {
                Some(s) => Some(s.buffer),
                None => None::<u64>,
            },
            !r.0 ==> final(self).pipeline.outputs@ == old(self).pipeline.outputs@ && final(self).chains@ == old(self).chains@ && r.1 is None,
            final(self).pipeline.abandoned == old(self).pipeline.abandoned,
            final(self).pipeline.next_baton == old(self).pipeline.next_baton,
    {
        if !self.pipeline.present_complete(output) {
            return (false, None);
        }
        let mut chain = self.chains[output];
        let released = chain.confirm_presented();
        self.chains.set(output, chain);
        (true, released)
    }

    /// Removes `output`: a baton awaiting render is abandoned, and every buffer
    /// its swap chain held comes back to be released.
    pub fn remove_output(&mut self, output: usize) -> (r: Vec<u64>)
        requires
            old(self).wf(),
        ensures
            final(self).wf(),
            output < old(self).pipeline.outputs.len() && old(self).pipeline.outputs[output as int].connected ==> r@ == old(self).chains[output as int].held() && final(self).chains[output as int].held().len() == 0,
            !(output < old(self).pipeline.outputs.len() && old(self).pipeline.outputs[output as int].connected) ==> r@.len() == 0 && final(self).chains@
                == old(self).chains@,
            final(self).pipeline.outputs@.len() == old(self).pipeline.outputs@.len(),
            output < old(self).pipeline.outputs.len() ==> !final(self).pipeline.outputs[output as int].connected,
    {
        if !self.pipeline.remove_output(output) {
            return Vec::new();
        }
        let mut chain = self.chains[output];
        let r = chain.release_all();
        self.chains.set(output, chain);
        proof {
            assert(held(None, None) =~= Seq::<u64>::empty());
        }
        r
    }
}

} // verus!
