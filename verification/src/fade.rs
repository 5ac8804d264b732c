//! Transition state machine and block processor for the crossfade engine.
//!
//! A [`Fader`] tracks which source is fading out, which is fading in, and how
//! many samples of the transition window have elapsed. It is owned and
//! mutated exclusively by the audio thread: control threads communicate with
//! it only through drained command batches (see [`Fader::apply_commands`]).

use vstd::prelude::*;

verus! {

/// Per-sample blend parameters: the renderer computes
/// `output = previous * gain(1 - p) + active * gain(p)` where
/// `p = elapsed / transition_len`, and `elapsed == transition_len` means the
/// transition is complete (only `active_source` contributes, at full gain).
#[derive(Clone, Copy, PartialEq, Eq, Structural, Debug)]
pub struct BlendStep {
    /// Source being faded out.
    pub previous_source: usize,
    /// Source being faded in, or fully active once the transition completed.
    pub active_source: usize,
    /// Samples elapsed since the transition began, clamped at `transition_len`.
    pub elapsed: u64,
    /// Length of the transition window, in samples.
    pub transition_len: u64,
}

/// The transition state machine. Steady state is `elapsed == transition_len`
/// (and then `previous_source == active_source`); any smaller `elapsed` means
/// a transition is in flight.
#[derive(Clone, Copy, PartialEq, Eq, Structural, Debug)]
pub struct Fader {
    /// Source being faded out.
    pub previous_source: usize,
    /// Source being faded in / already fully active.
    pub active_source: usize,
    /// Samples elapsed since the current transition began.
    pub elapsed: u64,
    /// Fixed transition length in samples, configured once at startup.
    pub transition_len: u64,
    /// Number of input buses; both source indices stay below it.
    pub input_count: usize,
}

impl Fader {
    /// Well-formedness invariant: valid source indices, elapsed time clamped
    /// into the transition window, and no residual fade-out source once the
    /// transition has completed.
    pub open spec fn wf(self) -> bool {
        &&& self.input_count >= 1
        &&& self.transition_len >= 1
        &&& self.previous_source < self.input_count
        &&& self.active_source < self.input_count
        &&& self.elapsed <= self.transition_len
        &&& (self.elapsed == self.transition_len ==> self.previous_source == self.active_source)
    }

    /// Steady state: no transition in flight.
    pub open spec fn is_steady_spec(self) -> bool {
        self.elapsed == self.transition_len
    }

    /// Effect of a switch request: fade out of whatever was active at the
    /// moment of the request, into `target`, restarting the ramp — even when
    /// `target` is already active.
    pub open spec fn spec_request(self, target: usize) -> Fader {
        Fader { previous_source: self.active_source, active_source: target, elapsed: 0, ..self }
    }

    /// Effect of advancing by one sample: elapsed time grows by one and is
    /// clamped at `transition_len`; on completion the fade-out source
    /// collapses onto the active one (a hard snap, not a partial fade).
    pub open spec fn spec_advance(self) -> Fader {
        if self.elapsed + 1 < self.transition_len {
            Fader { elapsed: (self.elapsed + 1) as u64, ..self }
        } else {
            Fader {
                elapsed: self.transition_len,
                previous_source: self.active_source,
                ..self
            }
        }
    }

    /// State after `n` per-sample advances.
    pub open spec fn spec_advance_n(self, n: nat) -> Fader
        decreases n,
    {
        if n == 0 {
            self
        } else {
            self.spec_advance_n((n - 1) as nat).spec_advance()
        }
    }

    /// State after applying a drained batch of switch commands in arrival
    /// order.
    pub open spec fn spec_apply(self, cmds: Seq<usize>) -> Fader
        decreases cmds.len(),
    {
        if cmds.len() == 0 {
            self
        } else {
            self.spec_apply(cmds.drop_last()).spec_request(cmds.last())
        }
    }

    /// What the renderer may rely on for every emitted blend step: both
    /// source indices are valid input buses, and the elapsed clock is clamped
    /// into the transition window, so the progress ratio lies in `[0, 1]`.
    pub open spec fn step_valid(step: BlendStep, input_count: usize) -> bool {
        &&& step.previous_source < input_count
        &&& step.active_source < input_count
        &&& step.transition_len >= 1
        &&& step.elapsed <= step.transition_len
    }

    /// Blend parameters the renderer needs for the next sample.
    pub open spec fn step_of(self) -> BlendStep {
        BlendStep {
            previous_source: self.previous_source,
            active_source: self.active_source,
            elapsed: self.elapsed,
            transition_len: self.transition_len,
        }
    }

    /// A fresh fader: source 0 fully active, no transition pending.
    pub fn new(input_count: usize, transition_len: u64) -> (r: Fader)
        requires
            input_count >= 1,
            transition_len >= 1,
        ensures
            r.wf(),
            r == (Fader {
                previous_source: 0,
                active_source: 0,
                elapsed: transition_len,
                transition_len: transition_len,
                input_count: input_count,
            }),
    {
        Fader {
            previous_source: 0,
            active_source: 0,
            elapsed: transition_len,
            transition_len: transition_len,
            input_count: input_count,
        }
    }

    /// Switch to `target`: start fading out of the currently active source
    /// and into `target`, over a full transition window. Requesting the
    /// already-active source restarts the ramp rather than being a no-op.
    pub fn request_switch(&mut self, target: usize)
        requires
            old(self).wf(),
            target < old(self).input_count,
        ensures
            final(self).wf(),
            *final(self) == old(self).spec_request(target),
            final(self).previous_source == old(self).active_source,
            final(self).active_source == target,
            final(self).elapsed == 0,
    {
        self.previous_source = self.active_source;
        self.active_source = target;
        self.elapsed = 0;
    }

    /// Advance the transition clock by one sample, clamping at
    /// `transition_len` and collapsing to steady state on completion. In
    /// steady state this is a no-op.
    pub fn advance(&mut self)
        requires
            old(self).wf(),
        ensures
            final(self).wf(),
            *final(self) == old(self).spec_advance(),
    {
        if self.elapsed < self.transition_len {
            self.elapsed = self.elapsed + 1;
            if self.elapsed == self.transition_len {
                self.previous_source = self.active_source;
            }
        }
    }

    /// Apply a drained batch of switch commands in arrival order. Every
    /// command must already have been validated by the control plane (the
    /// audio thread trusts each dequeued value as a valid index). Only the
    /// net effect of the last command determines the new target: each request
    /// supersedes the previous one, so the fader ends up fading out of
    /// whatever was active at the moment of the latest request.
    pub fn apply_commands(&mut self, cmds: &Vec<usize>)
        requires
            old(self).wf(),
            forall|i: int| 0 <= i < cmds@.len() ==> cmds@[i] < old(self).input_count,
        ensures
            final(self).wf(),
            *final(self) == old(self).spec_apply(cmds@),
            final(self).input_count == old(self).input_count,
            final(self).transition_len == old(self).transition_len,
    {
        let ghost s0 = *self;
        let n = cmds.len();
        let mut j: usize = 0;
        while j < n
            invariant
                n == cmds@.len(),
                0 <= j <= n,
                forall|i: int| 0 <= i < cmds@.len() ==> cmds@[i] < s0.input_count,
                self.wf(),
                self.input_count == s0.input_count,
                self.transition_len == s0.transition_len,
                *self == s0.spec_apply(cmds@.take(j as int)),
            decreases n - j,
        {
            proof {
                assert(cmds@.take(j + 1).drop_last() =~= cmds@.take(j as int));
                assert(cmds@.take(j + 1).last() == cmds@[j as int]);
            }
            self.request_switch(cmds[j]);
            j = j + 1;
        }
        proof {
            assert(cmds@.take(n as int) =~= cmds@);
        }
    }

    /// One audio block, as the real-time callback sees it: first drain the
    /// pending switch commands, then produce the exact blend parameters for
    /// every (channel, sample) slot in order, advancing the transition clock
    /// once per slot. The renderer turns each [`BlendStep`] into one output
    /// sample.
    pub fn process_block(&mut self, cmds: &Vec<usize>, channels: usize, block_size: usize) -> (r:
        Vec<BlendStep>)
        requires
            old(self).wf(),
            forall|i: int| 0 <= i < cmds@.len() ==> cmds@[i] < old(self).input_count,
            channels * block_size <= usize::MAX,
        ensures
            final(self).wf(),
            final(self).input_count == old(self).input_count,
            final(self).transition_len == old(self).transition_len,
            r@.len() == channels * block_size,
            forall|k: int|
                0 <= k < r@.len() ==> r@[k] == old(self).spec_apply(cmds@).spec_advance_n(
                    k as nat,
                ).step_of(),
            forall|k: int|
                0 <= k < r@.len() ==> #[trigger] Fader::step_valid(
                    r@[k],
                    old(self).input_count,
                ),
            *final(self) == old(self).spec_apply(cmds@).spec_advance_n(
                (channels * block_size) as nat,
            ),
    {
        self.apply_commands(cmds);
        let ghost s1 = *self;
        let total = channels * block_size;
        let mut out: Vec<BlendStep> = Vec::new();
        let mut k: usize = 0;
        while k < total
            invariant
                0 <= k <= total,
                out@.len() == k,
                self.wf(),
                self.input_count == s1.input_count,
                self.transition_len == s1.transition_len,
                *self == s1.spec_advance_n(k as nat),
                forall|i: int| 0 <= i < k ==> out@[i] == s1.spec_advance_n(i as nat).step_of(),
                forall|i: int|
                    0 <= i < k ==> #[trigger] Fader::step_valid(out@[i], s1.input_count),
            decreases total - k,
        {
            out.push(self.blend_step());
            self.advance();
            k = k + 1;
        }
        out
    }

    /// Whether no transition is in flight.
    pub fn is_steady(&self) -> (r: bool)
        ensures
            r == self.is_steady_spec(),
    {
        self.elapsed == self.transition_len
    }

    /// Blend parameters for the sample about to be rendered.
    pub fn blend_step(&self) -> (r: BlendStep)
        ensures
            r == self.step_of(),
    {
        BlendStep {
            previous_source: self.previous_source,
            active_source: self.active_source,
            elapsed: self.elapsed,
            transition_len: self.transition_len,
        }
    }
}

/// Advancing never changes which source is fading in, nor the configuration:
/// only a switch request can re-target a transition.
pub proof fn lemma_advance_n_preserves_target(s: Fader, n: nat)
    ensures
        s.spec_advance_n(n).active_source == s.active_source,
        s.spec_advance_n(n).input_count == s.input_count,
        s.spec_advance_n(n).transition_len == s.transition_len,
    decreases n,
{
    if n > 0 {
        lemma_advance_n_preserves_target(s, (n - 1) as nat);
    }
}

/// A transition runs for exactly its configured length: after a switch
/// request, the elapsed clock counts every advance one by one, the fader is
/// still transitioning strictly before `transition_len` advances, and it
/// reaches steady state — the new target fully active, no residual fade-out
/// source — at exactly `transition_len` advances, not before and not after.
pub proof fn lemma_transition_duration(s: Fader, target: usize, k: nat)
    requires
        s.wf(),
        target < s.input_count,
        k <= s.transition_len,
    ensures
        s.spec_request(target).spec_advance_n(k).elapsed == k,
        s.spec_request(target).spec_advance_n(k).active_source == target,
        k < s.transition_len ==> !s.spec_request(target).spec_advance_n(k).is_steady_spec(),
        k < s.transition_len ==> s.spec_request(target).spec_advance_n(k).previous_source
            == s.active_source,
        k == s.transition_len ==> s.spec_request(target).spec_advance_n(k).is_steady_spec(),
        k == s.transition_len ==> s.spec_request(target).spec_advance_n(k).previous_source
            == target,
    decreases k,
{
    if k > 0 {
        lemma_transition_duration(s, target, (k - 1) as nat);
        lemma_advance_n_preserves_target(s.spec_request(target), (k - 1) as nat);
    }
    lemma_advance_n_preserves_target(s.spec_request(target), k);
}

/// Re-targeting fades out of the source that was active at the moment of the
/// new request: after requesting `b` and advancing any number of samples —
/// mid-transition in particular — a request for `c` starts a fresh ramp from
/// `b` into `c`, discarding any lingering contribution of the source that `b`
/// itself was fading out.
pub proof fn lemma_retarget(s: Fader, b: usize, c: usize, k: nat)
    requires
        s.wf(),
        b < s.input_count,
        c < s.input_count,
    ensures
        ({
            let t = s.spec_request(b).spec_advance_n(k).spec_request(c);
            t.previous_source == b && t.active_source == c && t.elapsed == 0
        }),
{
    lemma_advance_n_preserves_target(s.spec_request(b), k);
}

/// Last drained command wins: applying a non-empty batch leaves the fader
/// fading into the last command's target with a freshly restarted ramp, out
/// of the source that was active when that last command was applied (the
/// second-to-last target, or the previously active source for a batch of
/// one). Intermediate commands are superseded.
pub proof fn lemma_apply_last_wins(s: Fader, cmds: Seq<usize>)
    requires
        cmds.len() > 0,
    ensures
        s.spec_apply(cmds).active_source == cmds.last(),
        s.spec_apply(cmds).elapsed == 0,
        s.spec_apply(cmds).previous_source == (if cmds.len() == 1 {
            s.active_source
        } else {
            cmds[cmds.len() - 2]
        }),
    decreases cmds.len(),
{
    if cmds.len() > 1 {
        lemma_apply_last_wins(s, cmds.drop_last());
        assert(cmds.drop_last().last() == cmds[cmds.len() - 2]);
    } else {
        assert(cmds.drop_last().len() == 0);
        assert(s.spec_apply(cmds.drop_last()) == s);
    }
}

/// Block processing is deterministic: two faders in equal states, fed equal
/// command batches and advanced the same number of samples, pass through
/// equal states and hand the renderer identical blend parameters at every
/// sample. With identical input samples, the rendered output is therefore
/// reproducible.
pub proof fn lemma_deterministic(s1: Fader, s2: Fader, cmds1: Seq<usize>, cmds2: Seq<usize>, n: nat)
    requires
        s1 == s2,
        cmds1 == cmds2,
    ensures
        s1.spec_apply(cmds1).spec_advance_n(n) == s2.spec_apply(cmds2).spec_advance_n(n),
        s1.spec_apply(cmds1).spec_advance_n(n).step_of() == s2.spec_apply(cmds2).spec_advance_n(
            n,
        ).step_of(),
{
}

/// Requesting a switch to the already-active source is not a no-op: it
/// restarts a full transition (`elapsed` drops to zero). But both fade
/// endpoints are then that same source, at every sample from the request on,
/// so no other source ever contributes to the blend.
pub proof fn lemma_same_source_restart(s: Fader, k: nat)
    requires
        s.wf(),
    ensures
        s.spec_request(s.active_source).elapsed == 0,
        s.spec_request(s.active_source).spec_advance_n(k).previous_source == s.active_source,
        s.spec_request(s.active_source).spec_advance_n(k).active_source == s.active_source,
    decreases k,
{
    if k > 0 {
        lemma_same_source_restart(s, (k - 1) as nat);
    }
}

} // verus!
