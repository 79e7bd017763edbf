use vstd::prelude::*;

verus! {

/// Where an output stands in its request/render/present cycle.
#[derive(Clone, Copy, Debug, PartialEq, Eq, Structural)]
pub enum Stage {
    Idle,
    AwaitingRender,
    BufferReady,
    Presented,
}

/// The baton table's entry for one output.
#[derive(Clone, Copy, Debug, PartialEq, Eq, Structural)]
pub struct OutputSlot {
    /// False once the output has been removed.
    pub connected: bool,
    pub stage: Stage,
    /// The baton last issued for this output.
    pub baton: u64,
    /// When that baton was issued.
    pub issued_at: u32,
    /// Committed content, or a forced redraw, is waiting for a frame.
    pub content_pending: bool,
}

/// What the rendering engine sends back for a baton.
#[derive(Clone, Copy, Debug, PartialEq, Eq, Structural)]
pub enum HandoffMessage {
    Frame { buffer: u64, baton: u64 },
    NoFrame { baton: u64 },
}

/// What the reactor must do with a message it has taken off the channel.
#[derive(Clone, Copy, Debug, PartialEq, Eq, Structural)]
pub enum Disposition {
    /// Hand the buffer to the output's swap chain for import.
    Import { output: usize, buffer: u64 },
    /// Release the buffer at once; it is never imported.
    Release { buffer: u64 },
    /// The engine declined; the output's baton is retired.
    Retired { output: usize },
    /// A decline for a baton that is no longer live.
    Ignored,
}

#[derive(Clone, Copy, Debug, PartialEq, Eq, Structural)]
pub enum RequestError {
    /// No connected output has this index.
    UnknownOutput,
    /// A baton is already outstanding for the output.
    Outstanding,
    /// Every baton identifier has been handed out.
    IdsExhausted,
}

/// Paces frame requests: a table of outputs, indexed by output number, with at
/// most one outstanding baton each. There is deliberately no timeout: an output
/// whose baton the engine never answers stays `AwaitingRender`, and only that
/// output stops advancing.
pub struct BatonPipeline {
    pub outputs: Vec<OutputSlot>,
    /// Batons of removed outputs whose answer has not come back yet.
    pub abandoned: Vec<u64>,
    /// The next baton identifier; identifiers only grow.
    pub next_baton: u64,
}

/// The baton that a message answers.
pub open spec fn message_baton(msg: HandoffMessage) -> u64 {
    match msg {
        HandoffMessage::Frame { baton, .. } => baton,
        HandoffMessage::NoFrame { baton } => baton,
    }
}

impl BatonPipeline {
    /// A baton is awaiting render for output `o`.
    pub open spec fn awaiting(&self, o: int, id: u64) -> bool {
        0 <= o < self.outputs.len() && self.outputs[o].stage == Stage::AwaitingRender
            && self.outputs[o].baton == id
    }

    /// The baton `id` is live for output `o`: issued and not yet retired.
    pub open spec fn is_live(&self, o: int, id: u64) -> bool {
        0 <= o < self.outputs.len() && (self.outputs[o].stage == Stage::AwaitingRender
            || self.outputs[o].stage == Stage::BufferReady) && self.outputs[o].baton == id
    }

    /// The live batons of output `o`.
    pub open spec fn live_batons(&self, o: int) -> Set<u64> {
        Set::new(|id: u64| self.is_live(o, id))
    }

    pub open spec fn wf(&self) -> bool {
        &&& self.next_baton > 0
        &&& forall|o: int|
            0 <= o < self.outputs.len() ==> (#[trigger] self.outputs[o]).baton < self.next_baton
        &&& forall|o: int|
            0 <= o < self.outputs.len() && !(#[trigger] self.outputs[o]).connected
                ==> self.outputs[o].stage == Stage::Idle
        &&& forall|o1: int, o2: int|
            0 <= o1 < self.outputs.len() && 0 <= o2 < self.outputs.len() && o1 != o2
                && (#[trigger] self.outputs[o1]).stage == Stage::AwaitingRender
                && (#[trigger] self.outputs[o2]).stage == Stage::AwaitingRender
                ==> self.outputs[o1].baton != self.outputs[o2].baton
        &&& forall|k: int, o: int|
            0 <= k < self.abandoned.len() && 0 <= o < self.outputs.len()
                && (#[trigger] self.outputs[o]).stage == Stage::AwaitingRender
                ==> self.outputs[o].baton != #[trigger] self.abandoned[k]
        &&& forall|k: int| 0 <= k < self.abandoned.len() ==> #[trigger] self.abandoned[k] < self.next_baton
        &&& self.abandoned@.no_duplicates()
    }

    /// The output whose outstanding baton is `id`, if any.
    pub open spec fn owner_of(&self, id: u64) -> Option<int> {
        if exists|o: int| self.awaiting(o, id) {
            Some(choose|o: int| self.awaiting(o, id))
        } else {
            None
        }
    }

    /// What taking `msg` off the channel calls for.
    pub open spec fn disposition(&self, msg: HandoffMessage) -> Disposition {
        match self.owner_of(message_baton(msg)) {
            Some(o) => match msg {
                HandoffMessage::Frame { buffer, .. } => Disposition::Import {
                    output: o as usize,
                    buffer,
                },
                HandoffMessage::NoFrame { .. } => Disposition::Retired { output: o as usize },
            },
            None => match msg {
                HandoffMessage::Frame { buffer, .. } => Disposition::Release { buffer },
                HandoffMessage::NoFrame { .. } => Disposition::Ignored,
            },
        }
    }

    /// An empty table.
    pub fn new() -> (r: Self)
        ensures
            r.wf(),
            r.outputs@.len() == 0,
            r.abandoned@.len() == 0,
            r.next_baton == 1,
    {
        BatonPipeline { outputs: Vec::new(), abandoned: Vec::new(), next_baton: 1 }
    }

    /// Adds an output, idle and due for a forced redraw, and returns its index.
    pub fn add_output(&mut self) -> (r: usize)
        requires
            old(self).wf(),
            old(self).outputs.len() < usize::MAX,
        ensures
            final(self).wf(),
            r == old(self).outputs.len(),
            final(self).outputs@ == old(self).outputs@.push(
                OutputSlot {
                    connected: true,
                    stage: Stage::Idle,
                    baton: 0,
                    issued_at: 0,
                    content_pending: true,
                },
            ),
            final(self).abandoned == old(self).abandoned,
            final(self).next_baton == old(self).next_baton,
    {
        let r = self.outputs.len();
        self.outputs.push(
            OutputSlot {
                connected: true,
                stage: Stage::Idle,
                baton: 0,
                issued_at: 0,
                content_pending: true,
            },
        );
        assert(forall|o: int| 0 <= o < r ==> self.outputs[o] == old(self).outputs[o]);
        r
    }

    /// Records that a client committed content shown on `output`. Returns
    /// whether the output is connected.
    pub fn commit_content(&mut self, output: usize) -> (r: bool)
        requires
            old(self).wf(),
        ensures
            final(self).wf(),
            r == (output < old(self).outputs.len() && old(self).outputs[output as int].connected),
            r ==> final(self).outputs@ == old(self).outputs@.update(
                output as int,
                OutputSlot { content_pending: true, ..old(self).outputs[output as int] },
            ),
            !r ==> final(self).outputs@ == old(self).outputs@,
            final(self).abandoned == old(self).abandoned,
            final(self).next_baton == old(self).next_baton,
    {
        if output < self.outputs.len() && self.outputs[output].connected {
            let slot = self.outputs[output];
            self.outputs.set(output, OutputSlot { content_pending: true, ..slot });
            true
        } else {
            false
        }
    }

    /// Whether `output` should get a new frame request now: it is connected,
    /// idle, and has committed content or a forced redraw waiting.
    pub fn wants_frame(&self, output: usize) -> (r: bool)
        ensures
            r == (output < self.outputs.len() && self.outputs[output as int].connected
                && self.outputs[output as int].stage == Stage::Idle
                && self.outputs[output as int].content_pending),
    {
        output < self.outputs.len() && self.outputs[output].connected && self.outputs[output].stage
            == Stage::Idle && self.outputs[output].content_pending
    }

    /// Issues a baton for `output` at time `now` and marks the output as
    /// awaiting render. A request for an unknown or removed output, or for one
    /// with a baton already outstanding, is rejected and changes nothing.
    pub fn request_frame(&mut self, output: usize, now: u32) -> (r: Result<u64, RequestError>)
        requires
            old(self).wf(),
        ensures
            final(self).wf(),
            !(output < old(self).outputs.len() && old(self).outputs[output as int].connected) ==> r
                == Err::<u64, RequestError>(RequestError::UnknownOutput),
            output < old(self).outputs.len() && old(self).outputs[output as int].connected
                && old(self).outputs[output as int].stage != Stage::Idle ==> r == Err::<
                u64,
                RequestError,
            >(RequestError::Outstanding),
            output < old(self).outputs.len() && old(self).outputs[output as int].connected
                && old(self).outputs[output as int].stage == Stage::Idle && old(self).next_baton
                == u64::MAX ==> r == Err::<u64, RequestError>(RequestError::IdsExhausted),
            output < old(self).outputs.len() && old(self).outputs[output as int].connected
                && old(self).outputs[output as int].stage == Stage::Idle && old(self).next_baton
                < u64::MAX ==> r == Ok::<u64, RequestError>(old(self).next_baton),
            r is Err ==> final(self).outputs@ == old(self).outputs@ && final(self).abandoned == old(
                self,
            ).abandoned && final(self).next_baton == old(self).next_baton,
            r is Ok ==> final(self).outputs@ == old(self).outputs@.update(
                output as int,
                OutputSlot {
                    connected: true,
                    stage: Stage::AwaitingRender,
                    baton: old(self).next_baton,
                    issued_at: now,
                    content_pending: false,
                },
            ) && final(self).abandoned == old(self).abandoned && final(self).next_baton == old(
                self,
            ).next_baton + 1,
    {
        if !(output < self.outputs.len() && self.outputs[output].connected) {
            return Err(RequestError::UnknownOutput);
        }
        if self.outputs[output].stage != Stage::Idle {
            return Err(RequestError::Outstanding);
        }
        if self.next_baton == u64::MAX {
            return Err(RequestError::IdsExhausted);
        }
        let id = self.next_baton;
        self.outputs.set(
            output,
            OutputSlot {
                connected: true,
                stage: Stage::AwaitingRender,
                baton: id,
                issued_at: now,
                content_pending: false,
            },
        );
        self.next_baton = id + 1;
        Ok(id)
    }

    /// Finds the output that awaits render under baton `id`.
    fn find_awaiting(&self, id: u64) -> (r: Option<usize>)
        requires
            self.wf(),
        ensures
            r is Some ==> self.owner_of(id) == Some(r->0 as int),
            r is None ==> self.owner_of(id) is None,
    {
        let mut o: usize = 0;
        while o < self.outputs.len()
            invariant
                self.wf(),
                o <= self.outputs.len(),
                forall|p: int| 0 <= p < o ==> !self.awaiting(p, id),
            decreases self.outputs.len() - o,
        {
            if self.outputs[o].stage == Stage::AwaitingRender && self.outputs[o].baton == id {
                assert(self.awaiting(o as int, id));
                assert forall|p: int| #[trigger] self.awaiting(p, id) implies p == o by {
                    if p != o {
                        assert(self.outputs[p].baton != self.outputs[o as int].baton);
                    }
                }
                return Some(o);
            }
            o = o + 1;
        }
        None
    }

    /// Finds `id` among the abandoned batons.
    fn find_abandoned(&self, id: u64) -> (r: Option<usize>)
        ensures
            r is Some ==> r->0 < self.abandoned.len() && self.abandoned[r->0 as int] == id,
            r is None ==> !self.abandoned@.contains(id),
    {
        let mut k: usize = 0;
        while k < self.abandoned.len()
            invariant
                k <= self.abandoned.len(),
                forall|j: int| 0 <= j < k ==> self.abandoned[j] != id,
            decreases self.abandoned.len() - k,
        {
            if self.abandoned[k] == id {
                return Some(k);
            }
            k = k + 1;
        }
        None
    }

    /// Takes one message off the handoff channel. A `Frame` for an outstanding
    /// baton moves its output to `BufferReady` and is imported; a `NoFrame` for
    /// one retires its output to `Idle`. Any other `Frame`, late for an
    /// abandoned baton or matching none, has its buffer released at once; any
    /// other `NoFrame` is ignored. An abandoned baton is forgotten once its
    /// answer arrives.
    pub fn on_message(&mut self, msg: HandoffMessage) -> (r: Disposition)
        requires
            old(self).wf(),
        ensures
            final(self).wf(),
            final(self).next_baton == old(self).next_baton,
            r == old(self).disposition(msg),
            ({
                let id = match msg {
                    HandoffMessage::Frame { baton, .. } => baton,
                    HandoffMessage::NoFrame { baton } => baton,
                };
                match old(self).owner_of(id) {
                    Some(o) => {
                        &&& final(self).abandoned == old(self).abandoned
                        &&& match msg {
                            HandoffMessage::Frame { buffer, .. } => {
                                &&& r == Disposition::Import { output: o as usize, buffer }
                                &&& final(self).outputs@ == old(self).outputs@.update(
                                    o,
                                    OutputSlot { stage: Stage::BufferReady, ..old(self).outputs[o] },
                                )
                            },
                            HandoffMessage::NoFrame { .. } => {
                                &&& r == Disposition::Retired { output: o as usize }
                                &&& final(self).outputs@ == old(self).outputs@.update(
                                    o,
                                    OutputSlot { stage: Stage::Idle, ..old(self).outputs[o] },
                                )
                            },
                        }
                    },
                    None => {
                        &&& final(self).outputs@ == old(self).outputs@
                        &&& forall|x: u64|
                            #[trigger] final(self).abandoned@.contains(x) <==> (old(
                                self,
                            ).abandoned@.contains(x) && x != id)
                        &&& match msg {
                            HandoffMessage::Frame { buffer, .. } => r == Disposition::Release {
                                buffer,
                            },
                            HandoffMessage::NoFrame { .. } => r == Disposition::Ignored,
                        }
                    },
                }
            }),
    {
        let id = match msg {
            HandoffMessage::Frame { baton, .. } => baton,
            HandoffMessage::NoFrame { baton } => baton,
        };
        match self.find_awaiting(id) {
            Some(o) => {
                let slot = self.outputs[o];
                match msg {
                    HandoffMessage::Frame { buffer, .. } => {
                        self.outputs.set(o, OutputSlot { stage: Stage::BufferReady, ..slot });
                        Disposition::Import { output: o, buffer }
                    },
                    HandoffMessage::NoFrame { .. } => {
                        self.outputs.set(o, OutputSlot { stage: Stage::Idle, ..slot });
                        Disposition::Retired { output: o }
                    },
                }
            },
            None => {
                match self.find_abandoned(id) {
                    Some(k) => {
                        let ghost before = self.abandoned@;
                        self.abandoned.remove(k);
                        proof {
                            assert forall|x: u64| #[trigger] self.abandoned@.contains(x) <==> (
                            before.contains(x) && x != id) by {
                                if before.contains(x) && x != id {
                                    let j = choose|j: int| 0 <= j < before.len() && before[j] == x;
                                    if j < k {
                                        assert(self.abandoned@[j] == x);
                                    } else {
                                        assert(self.abandoned@[j - 1] == x);
                                    }
                                }
                                if self.abandoned@.contains(x) {
                                    let j = choose|j: int|
                                        0 <= j < self.abandoned@.len() && self.abandoned@[j] == x;
                                    if j < k {
                                        assert(before[j] == x);
                                    } else {
                                        assert(before[j + 1] == x);
                                    }
                                }
                            }
                        }
                    },
                    None => {
                    },
                }
                match msg {
                    HandoffMessage::Frame { buffer, .. } => Disposition::Release { buffer },
                    HandoffMessage::NoFrame { .. } => Disposition::Ignored,
                }
            },
        }
    }

    /// Moves `output` from stage `from` to stage `to`, keeping the rest of its
    /// entry. Returns whether the output was connected and in stage `from`;
    /// otherwise nothing changes.
    fn advance(&mut self, output: usize, from: Stage, to: Stage) -> (r: bool)
        requires
            old(self).wf(),
            from != Stage::AwaitingRender,
            to != Stage::AwaitingRender,
        ensures
            final(self).wf(),
            r == (output < old(self).outputs.len() && old(self).outputs[output as int].connected
                && old(self).outputs[output as int].stage == from),
            r ==> final(self).outputs@ == old(self).outputs@.update(
                output as int,
                OutputSlot { stage: to, ..old(self).outputs[output as int] },
            ),
            !r ==> final(self).outputs@ == old(self).outputs@,
            final(self).abandoned == old(self).abandoned,
            final(self).next_baton == old(self).next_baton,
    {
        if output < self.outputs.len() && self.outputs[output].connected
            && self.outputs[output].stage == from {
            let slot = self.outputs[output];
            self.outputs.set(output, OutputSlot { stage: to, ..slot });
            true
        } else {
            false
        }
    }

    /// The swap chain could not import the buffer of `output`'s frame: the
    /// frame counts as declined and the output returns to `Idle`.
    pub fn import_failed(&mut self, output: usize) -> (r: bool)
        requires
            old(self).wf(),
        ensures
            final(self).wf(),
            r == (output < old(self).outputs.len() && old(self).outputs[output as int].connected
                && old(self).outputs[output as int].stage == Stage::BufferReady),
            r ==> final(self).outputs@ == old(self).outputs@.update(
                output as int,
                OutputSlot { stage: Stage::Idle, ..old(self).outputs[output as int] },
            ),
            !r ==> final(self).outputs@ == old(self).outputs@,
            final(self).abandoned == old(self).abandoned,
            final(self).next_baton == old(self).next_baton,
    {
        self.advance(output, Stage::BufferReady, Stage::Idle)
    }

    /// The swap chain imported `output`'s frame and its presentation is
    /// scheduled for the next vsync.
    pub fn frame_scheduled(&mut self, output: usize) -> (r: bool)
        requires
            old(self).wf(),
        ensures
            final(self).wf(),
            r == (output < old(self).outputs.len() && old(self).outputs[output as int].connected
                && old(self).outputs[output as int].stage == Stage::BufferReady),
            r ==> final(self).outputs@ == old(self).outputs@.update(
                output as int,
                OutputSlot { stage: Stage::Presented, ..old(self).outputs[output as int] },
            ),
            !r ==> final(self).outputs@ == old(self).outputs@,
            final(self).abandoned == old(self).abandoned,
            final(self).next_baton == old(self).next_baton,
    {
        self.advance(output, Stage::BufferReady, Stage::Presented)
    }

    /// The backend confirmed that `output`'s scheduled frame is on screen: the
    /// output returns to `Idle`. Returns true exactly when such a frame was
    /// waiting, which is when the surfaces composited into it get their
    /// frame-done callbacks.
    pub fn present_complete(&mut self, output: usize) -> (r: bool)
        requires
            old(self).wf(),
        ensures
            final(self).wf(),
            r == (output < old(self).outputs.len() && old(self).outputs[output as int].connected
                && old(self).outputs[output as int].stage == Stage::Presented),
            r ==> final(self).outputs@ == old(self).outputs@.update(
                output as int,
                OutputSlot { stage: Stage::Idle, ..old(self).outputs[output as int] },
            ),
            !r ==> final(self).outputs@ == old(self).outputs@,
            final(self).abandoned == old(self).abandoned,
            final(self).next_baton == old(self).next_baton,
    {
        self.advance(output, Stage::Presented, Stage::Idle)
    }

    /// Removes `output`. A baton still awaiting render is marked abandoned, so
    /// that its late answer only frees the buffer. Returns whether the output
    /// was connected.
    pub fn remove_output(&mut self, output: usize) -> (r: bool)
        requires
            old(self).wf(),
        ensures
            final(self).wf(),
            r == (output < old(self).outputs.len() && old(self).outputs[output as int].connected),
            r ==> final(self).outputs@ == old(self).outputs@.update(
                output as int,
                OutputSlot {
                    connected: false,
                    stage: Stage::Idle,
                    content_pending: false,
                    ..old(self).outputs[output as int]
                },
            ),
            !r ==> final(self).outputs@ == old(self).outputs@,
            r && old(self).outputs[output as int].stage == Stage::AwaitingRender
                ==> final(self).abandoned@ == old(self).abandoned@.push(
                old(self).outputs[output as int].baton,
            ),
            !(r && old(self).outputs[output as int].stage == Stage::AwaitingRender)
                ==> final(self).abandoned == old(self).abandoned,
            final(self).next_baton == old(self).next_baton,
    {
        if !(output < self.outputs.len() && self.outputs[output].connected) {
            return false;
        }
        let slot = self.outputs[output];
        if slot.stage == Stage::AwaitingRender {
            let ghost before = self.abandoned@;
            self.abandoned.push(slot.baton);
            proof {
                assert forall|i: int, j: int|
                    0 <= i < self.abandoned@.len() && 0 <= j < self.abandoned@.len() && i != j
                    implies self.abandoned@[i] != self.abandoned@[j] by {
                    if i < before.len() && j < before.len() {
                        assert(before[i] != before[j]);
                    } else if i < before.len() {
                        assert(self.abandoned[i] != slot.baton);
                    } else {
                        assert(self.abandoned[j] != slot.baton);
                    }
                }
            }
        }
        self.outputs.set(
            output,
            OutputSlot { connected: false, stage: Stage::Idle, content_pending: false, ..slot },
        );
        proof {
            assert forall|k: int, o: int|
                0 <= k < self.abandoned.len() && 0 <= o < self.outputs.len()
                    && (#[trigger] self.outputs[o]).stage == Stage::AwaitingRender
                implies self.outputs[o].baton != #[trigger] self.abandoned[k] by {
                assert(o != output);
                assert(old(self).outputs[o] == self.outputs[o]);
                if k == old(self).abandoned.len() {
                    assert(self.abandoned[k] == slot.baton);
                } else {
                    assert(self.abandoned[k] == old(self).abandoned[k]);
                }
            }
        }
        true
    }

    /// Takes every message currently on the channel, oldest first, and returns
    /// what each calls for, in the same order. The buffer of every `Frame` is
    /// either imported or released, exactly once.
    pub fn drain_messages(&mut self, msgs: &Vec<HandoffMessage>) -> (r: Vec<Disposition>)
        requires
            old(self).wf(),
        ensures
            final(self).wf(),
            final(self).next_baton == old(self).next_baton,
            r@.len() == msgs@.len(),
            forall|i: int| 0 <= i < msgs@.len() ==> frame_accounted(#[trigger] msgs@[i], r@[i]),
            msgs@.len() > 0 ==> r@[0] == old(self).disposition(msgs@[0]),
    {
        let mut r: Vec<Disposition> = Vec::new();
        let mut i: usize = 0;
        while i < msgs.len()
            invariant
                self.wf(),
                self.next_baton == old(self).next_baton,
                i <= msgs@.len(),
                r@.len() == i,
                forall|j: int| 0 <= j < i ==> frame_accounted(#[trigger] msgs@[j], r@[j]),
                i > 0 ==> r@[0] == old(self).disposition(msgs@[0]),
                i == 0 ==> *self == *old(self),
            decreases msgs@.len() - i,
        {
            let msg = msgs[i];
            let d = self.on_message(msg);
            r.push(d);
            i = i + 1;
        }
        r
    }
}

/// Back-pressure: in every well-formed table, which every operation keeps,
/// each output has at most one live baton.
pub proof fn lemma_at_most_one_live_baton(p: &BatonPipeline, o: int)
    requires
        p.wf(),
    ensures
        p.live_batons(o).finite(),
        p.live_batons(o).len() <= 1,
{
    let only = set![p.outputs[o].baton];
    assert(p.live_batons(o).subset_of(only));
    vstd::set_lib::lemma_len_subset(p.live_batons(o), only);
    assert(only.len() == 1);
}

/// `d` is a disposition fit for `msg`: a frame's buffer is imported or
/// released, a decline retires a baton or is ignored.
pub open spec fn frame_accounted(msg: HandoffMessage, d: Disposition) -> bool {
    match msg {
        HandoffMessage::Frame { buffer, .. } => match d {
            Disposition::Import { buffer: b, .. } => b == buffer,
            Disposition::Release { buffer: b } => b == buffer,
            _ => false,
        },
        HandoffMessage::NoFrame { .. } => d is Retired || d is Ignored,
    }
}

/// Whatever the table, what a message calls for fits the message.
pub proof fn lemma_message_accounted(p: &BatonPipeline, msg: HandoffMessage)
    ensures
        frame_accounted(msg, p.disposition(msg)),
{
}

/// A buffer taken off the channel is either imported or released, never
/// both and never neither.
pub proof fn lemma_frame_buffer_accounted(p: &BatonPipeline, buffer: u64, baton: u64)
    ensures
        ({
            match p.disposition(HandoffMessage::Frame { buffer, baton }) {
                Disposition::Import { buffer: b, .. } => b == buffer,
                Disposition::Release { buffer: b } => b == buffer,
                _ => false,
            }
        }),
{
}

/// Once a frame for a baton is imported, a second frame under the same baton
/// is never imported: it is only released.
pub proof fn lemma_no_double_import(p: &BatonPipeline, q: &BatonPipeline, o: int, baton: u64, second: u64)
    requires
        p.wf(),
        p.owner_of(baton) == Some(o),
        q.outputs@ == p.outputs@.update(o, OutputSlot { stage: Stage::BufferReady, ..p.outputs[o] }),
    ensures
        q.disposition(HandoffMessage::Frame { buffer: second, baton }) == (Disposition::Release {
            buffer: second,
        }),
{
    assert(p.awaiting(o, baton));
    if exists|o2: int| q.awaiting(o2, baton) {
        let o2 = choose|o2: int| q.awaiting(o2, baton);
        assert(o2 != o);
        assert(p.outputs[o2] == q.outputs[o2]);
        assert(p.outputs[o2].baton == p.outputs[o].baton);
    }
}

} // verus!
