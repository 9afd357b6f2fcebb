//! Command/response correlation.
//!
//! Sending a command writes one encoded frame; the reply is then found by
//! reading frames until one correlates with the request. For the text
//! family a response correlates when its category equals the request's
//! category plus one and its command id matches; for the binary control
//! format the command id alone must match. Every well-formed frame that
//! does not correlate is appended to the pending queue in arrival order.
//! Reading stops with an error after 64 non-correlating frames, or — for
//! the text family — after 8 consecutive junk buffers.
//!
//! The state machines here take one raw buffer per step, so the caller
//! owns the reads and their timeouts; `run_text_command_with` and
//! `run_mcu_command_with` drive a whole response stream at once.

use std::collections::VecDeque;
use vstd::prelude::*;
use crate::binary_codec::{spec_mcu_decode, McuPacket};
use crate::text_codec::{spec_text_decode, Packet};

verus! {

/// Bound on well-formed, non-correlating frames per command.
pub const MAX_UNRELATED: u8 = 64;

/// Bound on consecutive junk buffers while waiting for one frame.
pub const MAX_JUNK: u8 = 8;

/// The identifying fields and payload of a text-family frame.
pub open spec fn frame_of(p: Packet) -> (u8, u8, Seq<u8>) {
    (p.category, p.cmd_id, p.data@)
}

/// The frames held by a pending queue, in order.
pub open spec fn frames_of(q: Seq<Packet>) -> Seq<(u8, u8, Seq<u8>)> {
    q.map_values(|p: Packet| frame_of(p))
}

/// Whether a raw buffer decodes to a frame correlating with the request.
pub open spec fn decodes_correlating(cat: u8, cmd: u8, b: Seq<u8>) -> bool {
    match spec_text_decode(b) {
        Some(f) => f.0 == cat + 1 && f.1 == cmd,
        None => false,
    }
}

/// Whether a raw buffer decodes to a well-formed but unrelated frame.
pub open spec fn decodes_unrelated(cat: u8, cmd: u8, b: Seq<u8>) -> bool {
    match spec_text_decode(b) {
        Some(f) => !(f.0 == cat + 1 && f.1 == cmd),
        None => false,
    }
}

/// How one run of a text-family command ends.
pub enum TextRunResult {
    /// The correlating frame arrived; its payload.
    Payload(Seq<u8>),
    /// Eight consecutive junk buffers.
    JunkExhausted,
    /// Sixty-four unrelated frames.
    UnrelatedExhausted,
    /// The response stream ended first.
    Starved,
}

/// The outcome of draining a response stream for one text-family command,
/// together with the unrelated frames queued along the way, in order.
pub open spec fn spec_run_text(cat: u8, cmd: u8, junk: int, unrelated: int, rs: Seq<Seq<u8>>) -> (
    TextRunResult,
    Seq<(u8, u8, Seq<u8>)>,
)
    decreases rs.len(),
{
    if rs.len() == 0 {
        (TextRunResult::Starved, Seq::empty())
    } else {
        match spec_text_decode(rs[0]) {
            None => {
                if junk + 1 >= MAX_JUNK {
                    (TextRunResult::JunkExhausted, Seq::empty())
                } else {
                    spec_run_text(cat, cmd, junk + 1, unrelated, rs.drop_first())
                }
            },
            Some(f) => {
                if f.0 == cat + 1 && f.1 == cmd {
                    (TextRunResult::Payload(f.2), Seq::empty())
                } else if unrelated + 1 >= MAX_UNRELATED {
                    (TextRunResult::UnrelatedExhausted, seq![f])
                } else {
                    let rest = spec_run_text(cat, cmd, 0, unrelated + 1, rs.drop_first());
                    (rest.0, seq![f] + rest.1)
                }
            },
        }
    }
}

/// What one raw buffer did to an in-flight text-family command.
#[derive(Debug, PartialEq, Eq)]
pub enum CommandStep {
    /// The correlating frame arrived; its payload.
    Done(Vec<u8>),
    /// Junk or an unrelated frame, both within budget; keep reading.
    Continue,
    /// Eight consecutive junk buffers.
    TooManyJunk,
    /// Sixty-four unrelated frames.
    TooManyUnrelated,
}

/// One in-flight text-family command.
pub struct TextCommandRun {
    /// Category of the request frame.
    pub category: u8,
    /// Command id of the request frame.
    pub cmd_id: u8,
    /// Consecutive junk buffers seen since the last well-formed frame.
    pub junk: u8,
    /// Well-formed, non-correlating frames seen.
    pub unrelated: u8,
}

impl TextCommandRun {
    pub open spec fn wf(self) -> bool {
        &&& self.junk < MAX_JUNK
        &&& self.unrelated < MAX_UNRELATED
        &&& self.category < 255
    }

    /// Begin correlating responses to a request frame.
    pub fn new(category: u8, cmd_id: u8) -> (r: Self)
        requires
            category < 255,
        ensures
            r.category == category,
            r.cmd_id == cmd_id,
            r.junk == 0,
            r.unrelated == 0,
            r.wf(),
    {
        TextCommandRun { category, cmd_id, junk: 0, unrelated: 0 }
    }

    /// Account one raw buffer read from the device: the correlating
    /// payload ends the run, junk and unrelated frames consume their
    /// budgets, and unrelated frames go to the back of `pending`.
    pub fn feed(&mut self, raw: &[u8], pending: &mut VecDeque<Packet>) -> (r: CommandStep)
        requires
            old(self).wf(),
        ensures
            final(self).category == old(self).category,
            final(self).cmd_id == old(self).cmd_id,
            match spec_text_decode(raw@) {
                None => {
                    &&& final(pending)@ == old(pending)@
                    &&& final(self).unrelated == old(self).unrelated
                    &&& final(self).junk == old(self).junk + 1
                    &&& r == (if old(self).junk + 1 >= MAX_JUNK {
                        CommandStep::TooManyJunk
                    } else {
                        CommandStep::Continue
                    })
                    &&& (old(self).junk + 1 < MAX_JUNK ==> final(self).wf())
                },
                Some(f) => {
                    if f.0 == old(self).category + 1 && f.1 == old(self).cmd_id {
                        &&& final(pending)@ == old(pending)@
                        &&& (r matches CommandStep::Done(v) && v@ == f.2)
                        &&& final(self).junk == 0
                        &&& final(self).unrelated == old(self).unrelated
                        &&& final(self).wf()
                    } else {
                        &&& frames_of(final(pending)@) =~= frames_of(old(pending)@).push(f)
                        &&& final(self).junk == 0
                        &&& final(self).unrelated == old(self).unrelated + 1
                        &&& r == (if old(self).unrelated + 1 >= MAX_UNRELATED {
                            CommandStep::TooManyUnrelated
                        } else {
                            CommandStep::Continue
                        })
                        &&& (old(self).unrelated + 1 < MAX_UNRELATED ==> final(self).wf())
                    }
                },
            },
    {
        match Packet::deserialize(raw) {
            None => {
                self.junk = self.junk + 1;
                if self.junk >= MAX_JUNK {
                    CommandStep::TooManyJunk
                } else {
                    CommandStep::Continue
                }
            },
            Some(p) => {
                self.junk = 0;
                if p.category == self.category + 1 && p.cmd_id == self.cmd_id {
                    CommandStep::Done(p.data)
                } else {
                    let ghost prior = pending@;
                    pending.push_back(p);
                    proof {
                        assert(frames_of(pending@) =~= frames_of(prior).push(frame_of(
                            pending@.last(),
                        )));
                    }
                    self.unrelated = self.unrelated + 1;
                    if self.unrelated >= MAX_UNRELATED {
                        CommandStep::TooManyUnrelated
                    } else {
                        CommandStep::Continue
                    }
                }
            },
        }
    }
}

/// Why draining a response stream failed.
#[derive(Debug, PartialEq, Eq)]
pub enum RunError {
    /// Eight consecutive junk buffers.
    TooManyJunk,
    /// Sixty-four unrelated frames.
    TooManyUnrelated,
    /// The stream ended before the correlating frame.
    Exhausted,
}

/// The views of a sequence of raw buffers.
pub open spec fn views_of(rs: Seq<Vec<u8>>) -> Seq<Seq<u8>> {
    rs.map_values(|v: Vec<u8>| v@)
}

/// Drain one response stream for a text-family command: the correlating
/// frame's payload comes back, every unrelated frame lands in `pending`
/// in arrival order, and the junk and unrelated bounds apply.
pub fn run_text_command_with(
    category: u8,
    cmd_id: u8,
    responses: &Vec<Vec<u8>>,
    pending: &mut VecDeque<Packet>,
) -> (r: Result<Vec<u8>, RunError>)
    requires
        category < 255,
    ensures
        ({
            let run = spec_run_text(category, cmd_id, 0, 0, views_of(responses@));
            &&& frames_of(final(pending)@) =~= frames_of(old(pending)@) + run.1
            &&& match r {
                Ok(v) => run.0 matches TextRunResult::Payload(s) && v@ == s,
                Err(RunError::TooManyJunk) => run.0 is JunkExhausted,
                Err(RunError::TooManyUnrelated) => run.0 is UnrelatedExhausted,
                Err(RunError::Exhausted) => run.0 is Starved,
            }
        }),
{
    let ghost all = views_of(responses@);
    let ghost base = frames_of(old(pending)@);
    let mut run = TextCommandRun::new(category, cmd_id);
    let mut i: usize = 0;
    proof {
        assert(all.skip(0) =~= all);
        assert(frames_of(pending@).skip(base.len() as int) =~= Seq::empty());
    }
    while i < responses.len()
        invariant
            i <= responses@.len(),
            all == views_of(responses@),
            run.wf(),
            run.category == category,
            run.cmd_id == cmd_id,
            base == frames_of(old(pending)@),
            base.len() <= frames_of(pending@).len(),
            frames_of(pending@).take(base.len() as int) =~= base,
            ({
                let rest = spec_run_text(
                    category,
                    cmd_id,
                    run.junk as int,
                    run.unrelated as int,
                    all.skip(i as int),
                );
                let whole = spec_run_text(category, cmd_id, 0, 0, all);
                &&& whole.0 == rest.0
                &&& whole.1 =~= frames_of(pending@).skip(base.len() as int) + rest.1
            }),
        decreases responses@.len() - i,
    {
        let ghost pre_junk = run.junk as int;
        let ghost pre_unrelated = run.unrelated as int;
        let ghost pre_frames = frames_of(pending@);
        let step = run.feed(responses[i].as_slice(), pending);
        proof {
            assert(all.skip(i as int)[0] == all[i as int]);
            assert(all.skip(i as int).drop_first() =~= all.skip(i + 1));
            assert(responses@[i as int]@ == all[i as int]);
        }
        let ghost rest_pre = spec_run_text(category, cmd_id, pre_junk, pre_unrelated, all.skip(
            i as int,
        ));
        let ghost whole = spec_run_text(category, cmd_id, 0, 0, all);
        match step {
            CommandStep::Done(v) => {
                proof {
                    assert(frames_of(pending@) == pre_frames);
                    assert(whole.1 =~= frames_of(pending@).skip(base.len() as int));
                    assert(frames_of(pending@) =~= frames_of(pending@).take(base.len() as int)
                        + frames_of(pending@).skip(base.len() as int));
                }
                return Ok(v);
            },
            CommandStep::Continue => {
                proof {
                    let rest_post = spec_run_text(
                        category,
                        cmd_id,
                        run.junk as int,
                        run.unrelated as int,
                        all.skip(i + 1),
                    );
                    match spec_text_decode(all[i as int]) {
                        None => {
                            assert(rest_pre == rest_post);
                            assert(frames_of(pending@) == pre_frames);
                        },
                        Some(f) => {
                            assert(rest_pre.0 == rest_post.0);
                            assert(rest_pre.1 =~= seq![f] + rest_post.1);
                            assert(frames_of(pending@) =~= pre_frames.push(f));
                            assert(frames_of(pending@).take(base.len() as int) =~= base);
                            assert(frames_of(pending@).skip(base.len() as int) =~= pre_frames.skip(
                                base.len() as int,
                            ).push(f));
                            assert(whole.1 =~= frames_of(pending@).skip(base.len() as int)
                                + rest_post.1);
                        },
                    }
                }
            },
            CommandStep::TooManyJunk => {
                proof {
                    assert(frames_of(pending@) == pre_frames);
                    assert(whole.1 =~= frames_of(pending@).skip(base.len() as int));
                    assert(frames_of(pending@) =~= frames_of(pending@).take(base.len() as int)
                        + frames_of(pending@).skip(base.len() as int));
                }
                return Err(RunError::TooManyJunk);
            },
            CommandStep::TooManyUnrelated => {
                proof {
                    match spec_text_decode(all[i as int]) {
                        Some(f) => {
                            assert(rest_pre.1 =~= seq![f]);
                            assert(frames_of(pending@) =~= pre_frames.push(f));
                            assert(frames_of(pending@).skip(base.len() as int) =~= pre_frames.skip(
                                base.len() as int,
                            ).push(f));
                            assert(whole.1 =~= frames_of(pending@).skip(base.len() as int));
                            assert(frames_of(pending@) =~= frames_of(pending@).take(
                                base.len() as int,
                            ) + frames_of(pending@).skip(base.len() as int));
                        },
                        None => {
                            assert(false);
                        },
                    }
                }
                return Err(RunError::TooManyUnrelated);
            },
        }
        i = i + 1;
    }
    proof {
        let whole = spec_run_text(category, cmd_id, 0, 0, all);
        assert(all.skip(responses@.len() as int) =~= Seq::<Seq<u8>>::empty());
        assert(whole.1 =~= frames_of(pending@).skip(base.len() as int));
        assert(frames_of(pending@) =~= frames_of(pending@).take(base.len() as int) + frames_of(
            pending@,
        ).skip(base.len() as int));
    }
    Err(RunError::Exhausted)
}

/// The decoded triple of a raw buffer, for buffers known to decode.
pub open spec fn decoded_frame(b: Seq<u8>) -> (u8, u8, Seq<u8>) {
    match spec_text_decode(b) {
        Some(f) => f,
        None => (0u8, 0u8, Seq::empty()),
    }
}

/// Command correlation: a stream of unrelated well-formed frames followed
/// by one correlating frame yields the correlating frame's payload, and
/// queues exactly the unrelated frames, in arrival order.
pub proof fn lemma_command_correlation(cat: u8, cmd: u8, rs: Seq<Seq<u8>>, j: int, u: int)
    requires
        rs.len() >= 1,
        forall|i: int| 0 <= i < rs.len() - 1 ==> decodes_unrelated(cat, cmd, #[trigger] rs[i]),
        decodes_correlating(cat, cmd, rs.last()),
        0 <= j,
        0 <= u,
        u + rs.len() - 1 < MAX_UNRELATED,
    ensures
        spec_run_text(cat, cmd, j, u, rs).0 == TextRunResult::Payload(decoded_frame(rs.last()).2),
        spec_run_text(cat, cmd, j, u, rs).1 =~= Seq::new(
            (rs.len() - 1) as nat,
            |i: int| decoded_frame(rs[i]),
        ),
    decreases rs.len(),
{
    if rs.len() == 1 {
        assert(rs[0] == rs.last());
        assert(spec_run_text(cat, cmd, j, u, rs).1 =~= Seq::new(0, |i: int| decoded_frame(rs[i])));
    } else {
        assert(decodes_unrelated(cat, cmd, rs[0]));
        let tail = rs.drop_first();
        assert(tail.last() == rs.last());
        assert(forall|i: int|
            0 <= i < tail.len() - 1 ==> decodes_unrelated(cat, cmd, #[trigger] tail[i]) && tail[i]
                == rs[i + 1]);
        lemma_command_correlation(cat, cmd, tail, 0, u + 1);
        let run = spec_run_text(cat, cmd, j, u, rs);
        let rest = spec_run_text(cat, cmd, 0, u + 1, tail);
        assert(run.1 =~= seq![decoded_frame(rs[0])] + rest.1);
        assert forall|i: int| 0 <= i < rs.len() - 1 implies run.1[i] == decoded_frame(rs[i]) by {
            if i > 0 {
                assert(rest.1[i - 1] == decoded_frame(tail[i - 1]));
                assert(tail[i - 1] == rs[i]);
            }
        }
        assert(run.1 =~= Seq::new((rs.len() - 1) as nat, |i: int| decoded_frame(rs[i])));
    }
}

/// Junk tolerance: junk buffers within the consecutive-junk budget,
/// followed by one correlating frame, still succeed and queue nothing.
pub proof fn lemma_junk_tolerance(cat: u8, cmd: u8, rs: Seq<Seq<u8>>, j: int, u: int)
    requires
        rs.len() >= 1,
        forall|i: int| 0 <= i < rs.len() - 1 ==> spec_text_decode(#[trigger] rs[i]) is None,
        decodes_correlating(cat, cmd, rs.last()),
        0 <= j,
        j + rs.len() - 1 < MAX_JUNK,
    ensures
        spec_run_text(cat, cmd, j, u, rs).0 == TextRunResult::Payload(decoded_frame(rs.last()).2),
        spec_run_text(cat, cmd, j, u, rs).1 =~= Seq::empty(),
    decreases rs.len(),
{
    if rs.len() == 1 {
        assert(rs[0] == rs.last());
    } else {
        assert(spec_text_decode(rs[0]) is None);
        let tail = rs.drop_first();
        assert(tail.last() == rs.last());
        assert(forall|i: int|
            0 <= i < tail.len() - 1 ==> spec_text_decode(#[trigger] tail[i]) is None && tail[i]
                == rs[i + 1]);
        lemma_junk_tolerance(cat, cmd, tail, j + 1, u);
    }
}

/// Junk exhaustion: once the consecutive-junk budget is used up by
/// malformed buffers alone, the run fails with the junk error.
pub proof fn lemma_junk_exhaustion(cat: u8, cmd: u8, rs: Seq<Seq<u8>>, j: int, u: int)
    requires
        0 <= j < MAX_JUNK,
        rs.len() >= MAX_JUNK - j,
        forall|i: int| 0 <= i < MAX_JUNK - j ==> spec_text_decode(#[trigger] rs[i]) is None,
    ensures
        spec_run_text(cat, cmd, j, u, rs).0 == TextRunResult::JunkExhausted,
        spec_run_text(cat, cmd, j, u, rs).1 =~= Seq::empty(),
    decreases rs.len(),
{
    assert(spec_text_decode(rs[0]) is None);
    if j + 1 < MAX_JUNK {
        let tail = rs.drop_first();
        assert(forall|i: int|
            0 <= i < MAX_JUNK - (j + 1) ==> spec_text_decode(#[trigger] tail[i]) is None && tail[i]
                == rs[i + 1]);
        lemma_junk_exhaustion(cat, cmd, tail, j + 1, u);
    }
}

/// The identifying fields and payload of a control-channel frame.
pub open spec fn mcu_frame_of(p: McuPacket) -> (u16, Seq<u8>) {
    (p.cmd_id, p.data@)
}

/// The control-channel frames held by a pending queue, in order.
pub open spec fn mcu_frames_of(q: Seq<McuPacket>) -> Seq<(u16, Seq<u8>)> {
    q.map_values(|p: McuPacket| mcu_frame_of(p))
}

/// What one raw buffer did to an in-flight control-channel command.
/// A malformed buffer is fatal here, unlike in the text family.
#[derive(Debug, PartialEq, Eq)]
pub enum McuStep {
    /// The correlating frame arrived; its payload.
    Done(Vec<u8>),
    /// An unrelated frame within budget; keep reading.
    Continue,
    /// The buffer does not decode.
    Malformed,
    /// Sixty-four unrelated frames.
    TooManyUnrelated,
}

/// One in-flight control-channel command: a response correlates when its
/// command id matches the request's exactly.
pub struct McuCommandRun {
    /// Command id of the request frame.
    pub cmd_id: u16,
    /// Well-formed, non-correlating frames seen.
    pub unrelated: u8,
}

impl McuCommandRun {
    pub open spec fn wf(self) -> bool {
        self.unrelated < MAX_UNRELATED
    }

    /// Begin correlating responses to a request frame.
    pub fn new(cmd_id: u16) -> (r: Self)
        ensures
            r.cmd_id == cmd_id,
            r.unrelated == 0,
            r.wf(),
    {
        McuCommandRun { cmd_id, unrelated: 0 }
    }

    /// Account one raw buffer read from the device.
    pub fn feed(&mut self, raw: &[u8], pending: &mut VecDeque<McuPacket>) -> (r: McuStep)
        requires
            old(self).wf(),
        ensures
            final(self).cmd_id == old(self).cmd_id,
            match spec_mcu_decode(raw@) {
                None => {
                    &&& final(pending)@ == old(pending)@
                    &&& *final(self) == *old(self)
                    &&& r == McuStep::Malformed
                },
                Some(f) => {
                    if f.0 == old(self).cmd_id {
                        &&& final(pending)@ == old(pending)@
                        &&& (r matches McuStep::Done(v) && v@ == f.1)
                        &&& *final(self) == *old(self)
                    } else {
                        &&& mcu_frames_of(final(pending)@) =~= mcu_frames_of(old(pending)@).push(f)
                        &&& final(self).unrelated == old(self).unrelated + 1
                        &&& r == (if old(self).unrelated + 1 >= MAX_UNRELATED {
                            McuStep::TooManyUnrelated
                        } else {
                            McuStep::Continue
                        })
                        &&& (old(self).unrelated + 1 < MAX_UNRELATED ==> final(self).wf())
                    }
                },
            },
    {
        match McuPacket::deserialize(raw) {
            None => McuStep::Malformed,
            Some(p) => {
                if p.cmd_id == self.cmd_id {
                    McuStep::Done(p.data)
                } else {
                    let ghost prior = pending@;
                    pending.push_back(p);
                    proof {
                        assert(mcu_frames_of(pending@) =~= mcu_frames_of(prior).push(mcu_frame_of(
                            pending@.last(),
                        )));
                    }
                    self.unrelated = self.unrelated + 1;
                    if self.unrelated >= MAX_UNRELATED {
                        McuStep::TooManyUnrelated
                    } else {
                        McuStep::Continue
                    }
                }
            },
        }
    }
}

/// How one run of a control-channel command ends.
pub enum McuRunResult {
    /// The correlating frame arrived; its payload.
    Payload(Seq<u8>),
    /// A buffer that does not decode; fatal for this family.
    MalformedFrame,
    /// Sixty-four unrelated frames.
    UnrelatedExhausted,
    /// The response stream ended first.
    Starved,
}

/// The outcome of draining a response stream for one control-channel
/// command, with the unrelated frames queued along the way, in order.
pub open spec fn spec_run_mcu(cmd: u16, unrelated: int, rs: Seq<Seq<u8>>) -> (
    McuRunResult,
    Seq<(u16, Seq<u8>)>,
)
    decreases rs.len(),
{
    if rs.len() == 0 {
        (McuRunResult::Starved, Seq::empty())
    } else {
        match spec_mcu_decode(rs[0]) {
            None => (McuRunResult::MalformedFrame, Seq::empty()),
            Some(f) => {
                if f.0 == cmd {
                    (McuRunResult::Payload(f.1), Seq::empty())
                } else if unrelated + 1 >= MAX_UNRELATED {
                    (McuRunResult::UnrelatedExhausted, seq![f])
                } else {
                    let rest = spec_run_mcu(cmd, unrelated + 1, rs.drop_first());
                    (rest.0, seq![f] + rest.1)
                }
            },
        }
    }
}

/// Why draining a control-channel response stream failed.
#[derive(Debug, PartialEq, Eq)]
pub enum McuRunError {
    /// A buffer that does not decode.
    Malformed,
    /// Sixty-four unrelated frames.
    TooManyUnrelated,
    /// The stream ended before the correlating frame.
    Exhausted,
}

/// Drain one response stream for a control-channel command: the
/// correlating frame's payload comes back, every unrelated frame lands in
/// `pending` in arrival order, and a malformed buffer is fatal.
pub fn run_mcu_command_with(
    cmd_id: u16,
    responses: &Vec<Vec<u8>>,
    pending: &mut VecDeque<McuPacket>,
) -> (r: Result<Vec<u8>, McuRunError>)
    ensures
        ({
            let run = spec_run_mcu(cmd_id, 0, views_of(responses@));
            &&& mcu_frames_of(final(pending)@) =~= mcu_frames_of(old(pending)@) + run.1
            &&& match r {
                Ok(v) => run.0 matches McuRunResult::Payload(s) && v@ == s,
                Err(McuRunError::Malformed) => run.0 is MalformedFrame,
                Err(McuRunError::TooManyUnrelated) => run.0 is UnrelatedExhausted,
                Err(McuRunError::Exhausted) => run.0 is Starved,
            }
        }),
{
    let ghost all = views_of(responses@);
    let ghost base = mcu_frames_of(old(pending)@);
    let mut run = McuCommandRun::new(cmd_id);
    let mut i: usize = 0;
    proof {
        assert(all.skip(0) =~= all);
        assert(mcu_frames_of(pending@).skip(base.len() as int) =~= Seq::empty());
    }
    while i < responses.len()
        invariant
            i <= responses@.len(),
            all == views_of(responses@),
            run.wf(),
            run.cmd_id == cmd_id,
            base == mcu_frames_of(old(pending)@),
            base.len() <= mcu_frames_of(pending@).len(),
            mcu_frames_of(pending@).take(base.len() as int) =~= base,
            ({
                let rest = spec_run_mcu(cmd_id, run.unrelated as int, all.skip(i as int));
                let whole = spec_run_mcu(cmd_id, 0, all);
                &&& whole.0 == rest.0
                &&& whole.1 =~= mcu_frames_of(pending@).skip(base.len() as int) + rest.1
            }),
        decreases responses@.len() - i,
    {
        let ghost pre_unrelated = run.unrelated as int;
        let ghost pre_frames = mcu_frames_of(pending@);
        let step = run.feed(responses[i].as_slice(), pending);
        proof {
            assert(all.skip(i as int)[0] == all[i as int]);
            assert(all.skip(i as int).drop_first() =~= all.skip(i + 1));
            assert(responses@[i as int]@ == all[i as int]);
        }
        let ghost rest_pre = spec_run_mcu(cmd_id, pre_unrelated, all.skip(i as int));
        let ghost whole = spec_run_mcu(cmd_id, 0, all);
        match step {
            McuStep::Done(v) => {
                proof {
                    assert(mcu_frames_of(pending@) == pre_frames);
                    assert(whole.1 =~= mcu_frames_of(pending@).skip(base.len() as int));
                    assert(mcu_frames_of(pending@) =~= mcu_frames_of(pending@).take(
                        base.len() as int,
                    ) + mcu_frames_of(pending@).skip(base.len() as int));
                }
                return Ok(v);
            },
            McuStep::Continue => {
                proof {
                    let rest_post = spec_run_mcu(cmd_id, run.unrelated as int, all.skip(i + 1));
                    match spec_mcu_decode(all[i as int]) {
                        Some(f) => {
                            assert(rest_pre.0 == rest_post.0);
                            assert(rest_pre.1 =~= seq![f] + rest_post.1);
                            assert(mcu_frames_of(pending@) =~= pre_frames.push(f));
                            assert(mcu_frames_of(pending@).take(base.len() as int) =~= base);
                            assert(mcu_frames_of(pending@).skip(base.len() as int)
                                =~= pre_frames.skip(base.len() as int).push(f));
                            assert(whole.1 =~= mcu_frames_of(pending@).skip(base.len() as int)
                                + rest_post.1);
                        },
                        None => {
                            assert(false);
                        },
                    }
                }
            },
            McuStep::Malformed => {
                proof {
                    assert(mcu_frames_of(pending@) == pre_frames);
                    assert(whole.1 =~= mcu_frames_of(pending@).skip(base.len() as int));
                    assert(mcu_frames_of(pending@) =~= mcu_frames_of(pending@).take(
                        base.len() as int,
                    ) + mcu_frames_of(pending@).skip(base.len() as int));
                }
                return Err(McuRunError::Malformed);
            },
            McuStep::TooManyUnrelated => {
                proof {
                    match spec_mcu_decode(all[i as int]) {
                        Some(f) => {
                            assert(rest_pre.1 =~= seq![f]);
                            assert(mcu_frames_of(pending@) =~= pre_frames.push(f));
                            assert(mcu_frames_of(pending@).skip(base.len() as int)
                                =~= pre_frames.skip(base.len() as int).push(f));
                            assert(whole.1 =~= mcu_frames_of(pending@).skip(base.len() as int));
                            assert(mcu_frames_of(pending@) =~= mcu_frames_of(pending@).take(
                                base.len() as int,
                            ) + mcu_frames_of(pending@).skip(base.len() as int));
                        },
                        None => {
                            assert(false);
                        },
                    }
                }
                return Err(McuRunError::TooManyUnrelated);
            },
        }
        i = i + 1;
    }
    proof {
        let whole = spec_run_mcu(cmd_id, 0, all);
        assert(all.skip(responses@.len() as int) =~= Seq::<Seq<u8>>::empty());
        assert(whole.1 =~= mcu_frames_of(pending@).skip(base.len() as int));
        assert(mcu_frames_of(pending@) =~= mcu_frames_of(pending@).take(base.len() as int)
            + mcu_frames_of(pending@).skip(base.len() as int));
    }
    Err(McuRunError::Exhausted)
}

/// What one raw buffer did to a telemetry-control command waiting for its
/// acknowledgment: any frame that decodes is the acknowledgment, junk
/// consumes one of the 64 read attempts.
#[derive(Debug, PartialEq, Eq)]
pub enum AckStep {
    /// A frame decoded; its payload.
    Done(Vec<u8>),
    /// Junk within budget; keep reading.
    Continue,
    /// Sixty-four reads without a well-formed frame.
    TooManyAttempts,
}

/// A telemetry-control command waiting for its acknowledgment.
pub struct ImuAckRun {
    /// Reads consumed so far.
    pub attempts: u8,
}

impl ImuAckRun {
    pub open spec fn wf(self) -> bool {
        self.attempts < MAX_UNRELATED
    }

    pub fn new() -> (r: Self)
        ensures
            r.attempts == 0,
            r.wf(),
    {
        ImuAckRun { attempts: 0 }
    }

    /// Account one raw buffer read from the device.
    pub fn feed(&mut self, raw: &[u8]) -> (r: AckStep)
        requires
            old(self).wf(),
        ensures
            match crate::binary_codec::spec_imu_decode(raw@) {
                Some(f) => {
                    &&& (r matches AckStep::Done(v) && v@ == f.1)
                    &&& *final(self) == *old(self)
                },
                None => {
                    &&& final(self).attempts == old(self).attempts + 1
                    &&& r == (if old(self).attempts + 1 >= MAX_UNRELATED {
                        AckStep::TooManyAttempts
                    } else {
                        AckStep::Continue
                    })
                    &&& (old(self).attempts + 1 < MAX_UNRELATED ==> final(self).wf())
                },
            },
    {
        match crate::binary_codec::ImuPacket::deserialize(raw) {
            Some(p) => AckStep::Done(p.data),
            None => {
                self.attempts = self.attempts + 1;
                if self.attempts >= MAX_UNRELATED {
                    AckStep::TooManyAttempts
                } else {
                    AckStep::Continue
                }
            },
        }
    }
}

/// A sensor-unit command waiting for its acknowledgment report: a report
/// acknowledges when its first byte is 2, and the whole report is the
/// result.
pub struct Ov580AckRun {
    /// Reads consumed so far.
    pub attempts: u8,
}

impl Ov580AckRun {
    pub open spec fn wf(self) -> bool {
        self.attempts < MAX_UNRELATED
    }

    pub fn new() -> (r: Self)
        ensures
            r.attempts == 0,
            r.wf(),
    {
        Ov580AckRun { attempts: 0 }
    }

    /// Account one raw report read from the sensor unit.
    pub fn feed(&mut self, raw: &[u8]) -> (r: AckStep)
        requires
            old(self).wf(),
        ensures
            if raw@.len() > 0 && raw@[0] == 2 {
                &&& (r matches AckStep::Done(v) && v@ == raw@)
                &&& *final(self) == *old(self)
            } else {
                &&& final(self).attempts == old(self).attempts + 1
                &&& r == (if old(self).attempts + 1 >= MAX_UNRELATED {
                    AckStep::TooManyAttempts
                } else {
                    AckStep::Continue
                })
                &&& (old(self).attempts + 1 < MAX_UNRELATED ==> final(self).wf())
            },
    {
        if raw.len() > 0 && raw[0] == 2 {
            AckStep::Done(vstd::slice::slice_to_vec(raw))
        } else {
            self.attempts = self.attempts + 1;
            if self.attempts >= MAX_UNRELATED {
                AckStep::TooManyAttempts
            } else {
                AckStep::Continue
            }
        }
    }
}

} // verus!
