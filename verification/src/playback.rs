//! The order in which the segments of one speech request are synthesized
//! and played: the next segment is synthesized while the current one plays
//! (never more than one ahead), segments play in order, and the first failure
//! ends the request with its error. The caller synthesizes, plays, waits and
//! aborts; this module decides what happens next.
use vstd::prelude::*;
use crate::text::{push_str, u64_string, decimal};
use crate::voice_state::{
    SEQUENTIAL_QUEUE_CAPACITY, VoiceSettings, VoiceSettingsView, config_of, clamp_parallel,
};

verus! {

/// What the request is waiting for.
#[derive(Clone, Copy, PartialEq, Eq, Structural, Debug)]
pub enum PlaybackPhase {
    /// The synthesis of this segment.
    Synthesizing(usize),
    /// The playback of `index`, with the synthesis of `ahead` running.
    Playing { index: usize, ahead: Option<usize> },
    /// Nothing: the request is over.
    Done,
}

/// What the caller saw happen.
pub enum SegmentEvent {
    /// The awaited segment's audio is ready.
    Synthesized,
    /// Its synthesis failed with this error.
    SynthesisFailed(String),
    /// Its synthesis task could not be joined (the join error's text).
    SynthesisJoinFailed(String),
    /// Its synthesis took too long.
    SynthesisTimedOut,
    /// The playing segment ended.
    Played,
    /// Its playback failed with this error.
    PlaybackFailed(String),
    /// Its playback took too long.
    PlaybackTimedOut,
}

/// What the caller does next.
#[derive(Debug, PartialEq, Eq)]
pub enum SegmentAction {
    /// Start synthesizing this segment.
    Synthesize(usize),
    /// Play the audio of this segment.
    Play(usize),
    /// Stop the synthesis of this segment.
    Abort(usize),
    /// Record this error as the server's last error.
    SetError(String),
    /// Clear the server's last error.
    ClearError,
}

pub enum EventV {
    Synthesized,
    SynthesisFailed(Seq<char>),
    SynthesisJoinFailed(Seq<char>),
    SynthesisTimedOut,
    Played,
    PlaybackFailed(Seq<char>),
    PlaybackTimedOut,
}

pub enum ActionV {
    Synthesize(nat),
    Play(nat),
    Abort(nat),
    SetError(Seq<char>),
    ClearError,
}

impl View for SegmentEvent {
    type V = EventV;

    open spec fn view(&self) -> EventV {
        match self {
            SegmentEvent::Synthesized => EventV::Synthesized,
            SegmentEvent::SynthesisFailed(e) => EventV::SynthesisFailed(e@),
            SegmentEvent::SynthesisJoinFailed(e) => EventV::SynthesisJoinFailed(e@),
            SegmentEvent::SynthesisTimedOut => EventV::SynthesisTimedOut,
            SegmentEvent::Played => EventV::Played,
            SegmentEvent::PlaybackFailed(e) => EventV::PlaybackFailed(e@),
            SegmentEvent::PlaybackTimedOut => EventV::PlaybackTimedOut,
        }
    }
}

impl View for SegmentAction {
    type V = ActionV;

    open spec fn view(&self) -> ActionV {
        match self {
            SegmentAction::Synthesize(k) => ActionV::Synthesize(*k as nat),
            SegmentAction::Play(k) => ActionV::Play(*k as nat),
            SegmentAction::Abort(k) => ActionV::Abort(*k as nat),
            SegmentAction::SetError(e) => ActionV::SetError(e@),
            SegmentAction::ClearError => ActionV::ClearError,
        }
    }
}

pub open spec fn actions_view(v: Seq<SegmentAction>) -> Seq<ActionV> {
    v.map_values(|a: SegmentAction| a@)
}

/// The error of a synthesis that took too long.
pub open spec fn synthesis_timeout_message() -> Seq<char> {
    "segment synthesis timed out after 45s"@
}

/// The error of a playback that took too long.
pub open spec fn playback_timeout_message() -> Seq<char> {
    "segment playback timed out after 30s"@
}

/// How a request of `total` segments starts.
pub open spec fn start_spec(total: nat) -> (PlaybackPhase, Seq<ActionV>) {
    if total == 0 {
        (PlaybackPhase::Done, Seq::empty())
    } else {
        (PlaybackPhase::Synthesizing(0), seq![ActionV::Synthesize(0)])
    }
}

pub open spec fn abort_ahead(ahead: Option<usize>) -> Seq<ActionV> {
    match ahead {
        Some(k) => seq![ActionV::Abort(k as nat)],
        None => Seq::empty(),
    }
}

/// What an event leads to. An event that the phase does not wait for
/// changes nothing.
pub open spec fn step_spec(phase: PlaybackPhase, total: nat, ev: EventV) -> (PlaybackPhase, Seq<ActionV>) {
    match phase {
        PlaybackPhase::Synthesizing(i) => match ev {
            EventV::Synthesized => if i + 1 < total {
                (
                    PlaybackPhase::Playing { index: i, ahead: Some((i + 1) as usize) },
                    seq![ActionV::Synthesize((i + 1) as nat), ActionV::Play(i as nat)],
                )
            } else {
                (PlaybackPhase::Playing { index: i, ahead: None }, seq![ActionV::Play(i as nat)])
            },
            EventV::SynthesisFailed(e) => (PlaybackPhase::Done, seq![ActionV::SetError(e)]),
            EventV::SynthesisJoinFailed(e) => (
                PlaybackPhase::Done,
                seq![ActionV::SetError("failed to join segment synthesis task: "@ + e)],
            ),
            EventV::SynthesisTimedOut => (
                PlaybackPhase::Done,
                seq![ActionV::Abort(i as nat), ActionV::SetError(synthesis_timeout_message())],
            ),
            _ => (phase, Seq::empty()),
        },
        PlaybackPhase::Playing { index, ahead } => match ev {
            EventV::Played => match ahead {
                Some(k) => (PlaybackPhase::Synthesizing(k), Seq::empty()),
                None => (PlaybackPhase::Done, seq![ActionV::ClearError]),
            },
            EventV::PlaybackFailed(e) => (PlaybackPhase::Done, abort_ahead(ahead).push(ActionV::SetError(e))),
            EventV::PlaybackTimedOut => (
                PlaybackPhase::Done,
                abort_ahead(ahead).push(ActionV::SetError(playback_timeout_message())),
            ),
            _ => (phase, Seq::empty()),
        },
        PlaybackPhase::Done => (phase, Seq::empty()),
    }
}

/// The phase and all the actions after a sequence of events.
pub open spec fn run_spec(total: nat, evs: Seq<EventV>) -> (PlaybackPhase, Seq<ActionV>)
    decreases evs.len(),
{
    if evs.len() == 0 {
        start_spec(total)
    } else {
        let (ph, acts) = run_spec(total, evs.drop_last());
        let (ph2, more) = step_spec(ph, total, evs.last());
        (ph2, acts + more)
    }
}

/// The segments played, in order.
pub open spec fn plays(acts: Seq<ActionV>) -> Seq<nat>
    decreases acts.len(),
{
    if acts.len() == 0 {
        Seq::empty()
    } else {
        let rest = plays(acts.drop_last());
        match acts.last() {
            ActionV::Play(k) => rest.push(k),
            _ => rest,
        }
    }
}

/// The segments whose synthesis was started, in order.
pub open spec fn synths(acts: Seq<ActionV>) -> Seq<nat>
    decreases acts.len(),
{
    if acts.len() == 0 {
        Seq::empty()
    } else {
        let rest = synths(acts.drop_last());
        match acts.last() {
            ActionV::Synthesize(k) => rest.push(k),
            _ => rest,
        }
    }
}

/// The segments whose synthesis was stopped.
pub open spec fn aborts(acts: Seq<ActionV>) -> Seq<nat>
    decreases acts.len(),
{
    if acts.len() == 0 {
        Seq::empty()
    } else {
        let rest = aborts(acts.drop_last());
        match acts.last() {
            ActionV::Abort(k) => rest.push(k),
            _ => rest,
        }
    }
}

/// 0, 1, ..., n - 1.
pub open spec fn first_n(n: nat) -> Seq<nat> {
    Seq::new(n, |j: int| j as nat)
}

/// What a request has seen so far agrees with its phase.
pub open spec fn playback_inv(total: nat, ph: PlaybackPhase, acts: Seq<ActionV>) -> bool {
    let p = plays(acts).len();
    let s = synths(acts).len();
    &&& plays(acts) == first_n(p)
    &&& synths(acts) == first_n(s)
    &&& match ph {
        PlaybackPhase::Synthesizing(i) => i < total && p == i && s == i + 1 && aborts(acts).len() == 0,
        PlaybackPhase::Playing { index, ahead } => {
            &&& index < total
            &&& p == index + 1
            &&& aborts(acts).len() == 0
            &&& match ahead {
                Some(k) => k == index + 1 && k < total && s == index + 2,
                None => index + 1 == total && s == index + 1,
            }
        },
        PlaybackPhase::Done => {
            &&& p <= total
            &&& s <= total
            &&& s <= p + 1
            &&& forall|j: int| 0 <= j < aborts(acts).len() ==> p <= #[trigger] aborts(acts)[j] < s
        },
    }
}

proof fn lemma_plays_append(a: Seq<ActionV>, b: Seq<ActionV>)
    ensures
        plays(a + b) == plays(a) + plays(b),
        synths(a + b) == synths(a) + synths(b),
        aborts(a + b) == aborts(a) + aborts(b),
    decreases b.len(),
{
    if b.len() == 0 {
        assert(a + b =~= a);
        assert(plays(b) =~= Seq::<nat>::empty());
        assert(plays(a) + plays(b) =~= plays(a));
        assert(synths(a) + synths(b) =~= synths(a));
        assert(aborts(a) + aborts(b) =~= aborts(a));
    } else {
        lemma_plays_append(a, b.drop_last());
        assert((a + b).drop_last() =~= a + b.drop_last());
        assert((a + b).last() == b.last());
        assert(plays(a) + plays(b.drop_last()).push(b.last()->Play_0) =~= (plays(a) + plays(b.drop_last())).push(
            b.last()->Play_0,
        ));
        assert(synths(a) + synths(b.drop_last()).push(b.last()->Synthesize_0) =~= (synths(a) + synths(
            b.drop_last(),
        )).push(b.last()->Synthesize_0));
        assert(aborts(a) + aborts(b.drop_last()).push(b.last()->Abort_0) =~= (aborts(a) + aborts(
            b.drop_last(),
        )).push(b.last()->Abort_0));
    }
}

proof fn lemma_one_action(a: ActionV)
    ensures
        plays(seq![a]) == (match a {
            ActionV::Play(k) => seq![k],
            _ => Seq::<nat>::empty(),
        }),
        synths(seq![a]) == (match a {
            ActionV::Synthesize(k) => seq![k],
            _ => Seq::<nat>::empty(),
        }),
        aborts(seq![a]) == (match a {
            ActionV::Abort(k) => seq![k],
            _ => Seq::<nat>::empty(),
        }),
{
    let one = seq![a];
    assert(one.drop_last() =~= Seq::<ActionV>::empty());
    assert(one.last() == a);
    assert(plays(one) == plays(one.drop_last()) + match a {
        ActionV::Play(k) => seq![k],
        _ => Seq::<nat>::empty(),
    }) by {
        match a {
            ActionV::Play(k) => {
                assert(plays(one.drop_last()).push(k) =~= plays(one.drop_last()) + seq![k]);
            },
            _ => {
                assert(plays(one.drop_last()) + Seq::<nat>::empty() =~= plays(one.drop_last()));
            },
        }
    }
    assert(synths(one) == synths(one.drop_last()) + match a {
        ActionV::Synthesize(k) => seq![k],
        _ => Seq::<nat>::empty(),
    }) by {
        match a {
            ActionV::Synthesize(k) => {
                assert(synths(one.drop_last()).push(k) =~= synths(one.drop_last()) + seq![k]);
            },
            _ => {
                assert(synths(one.drop_last()) + Seq::<nat>::empty() =~= synths(one.drop_last()));
            },
        }
    }
    assert(aborts(one) == aborts(one.drop_last()) + match a {
        ActionV::Abort(k) => seq![k],
        _ => Seq::<nat>::empty(),
    }) by {
        match a {
            ActionV::Abort(k) => {
                assert(aborts(one.drop_last()).push(k) =~= aborts(one.drop_last()) + seq![k]);
            },
            _ => {
                assert(aborts(one.drop_last()) + Seq::<nat>::empty() =~= aborts(one.drop_last()));
            },
        }
    }
    assert(plays(Seq::<ActionV>::empty()) =~= Seq::<nat>::empty());
    assert(synths(Seq::<ActionV>::empty()) =~= Seq::<nat>::empty());
    assert(aborts(Seq::<ActionV>::empty()) =~= Seq::<nat>::empty());
    assert(Seq::<nat>::empty() + seq![a->Play_0] =~= seq![a->Play_0]);
    assert(Seq::<nat>::empty() + seq![a->Synthesize_0] =~= seq![a->Synthesize_0]);
    assert(Seq::<nat>::empty() + seq![a->Abort_0] =~= seq![a->Abort_0]);
    assert(Seq::<nat>::empty() + Seq::<nat>::empty() =~= Seq::<nat>::empty());
}

proof fn lemma_two_actions(a: ActionV, b: ActionV)
    ensures
        plays(seq![a, b]) == plays(seq![a]) + plays(seq![b]),
        synths(seq![a, b]) == synths(seq![a]) + synths(seq![b]),
        aborts(seq![a, b]) == aborts(seq![a]) + aborts(seq![b]),
{
    assert(seq![a, b] =~= seq![a] + seq![b]);
    lemma_plays_append(seq![a], seq![b]);
}

proof fn lemma_step_inv(total: nat, ph: PlaybackPhase, acts: Seq<ActionV>, ev: EventV)
    requires
        total <= usize::MAX,
        playback_inv(total, ph, acts),
    ensures
        playback_inv(total, step_spec(ph, total, ev).0, acts + step_spec(ph, total, ev).1),
{
    let (ph2, more) = step_spec(ph, total, ev);
    lemma_plays_append(acts, more);
    let p = plays(acts).len();
    let s = synths(acts).len();
    let e = Seq::<nat>::empty();
    assert(first_n(p).push(p) =~= first_n(p + 1));
    assert(first_n(s).push(s) =~= first_n(s + 1));
    assert(first_n(p) + e =~= first_n(p));
    assert(first_n(s) + e =~= first_n(s));
    assert(aborts(acts) + e =~= aborts(acts));
    assert(first_n(p) + seq![p] =~= first_n(p + 1));
    assert(first_n(s) + seq![s] =~= first_n(s + 1));
    assert(plays(Seq::<ActionV>::empty()) =~= e);
    assert(synths(Seq::<ActionV>::empty()) =~= e);
    assert(aborts(Seq::<ActionV>::empty()) =~= e);
    match ph {
        PlaybackPhase::Synthesizing(i) => {
            match ev {
                EventV::Synthesized => {
                    if i + 1 < total {
                        lemma_two_actions(ActionV::Synthesize((i + 1) as nat), ActionV::Play(i as nat));
                        lemma_one_action(ActionV::Synthesize((i + 1) as nat));
                        lemma_one_action(ActionV::Play(i as nat));
                        assert(e + seq![i as nat] =~= seq![i as nat]);
                        assert(seq![(i + 1) as nat] + e =~= seq![(i + 1) as nat]);
                    } else {
                        lemma_one_action(ActionV::Play(i as nat));
                    }
                },
                EventV::SynthesisFailed(msg) => {
                    lemma_one_action(ActionV::SetError(msg));
                },
                EventV::SynthesisJoinFailed(msg) => {
                    lemma_one_action(ActionV::SetError("failed to join segment synthesis task: "@ + msg));
                },
                EventV::SynthesisTimedOut => {
                    lemma_two_actions(ActionV::Abort(i as nat), ActionV::SetError(synthesis_timeout_message()));
                    lemma_one_action(ActionV::Abort(i as nat));
                    lemma_one_action(ActionV::SetError(synthesis_timeout_message()));
                    assert(seq![i as nat] + e =~= seq![i as nat]);
                    assert(aborts(acts) + seq![i as nat] =~= seq![i as nat]);
                },
                _ => {},
            }
        },
        PlaybackPhase::Playing { index, ahead } => {
            match ev {
                EventV::Played => {
                    if ahead is None {
                        lemma_one_action(ActionV::ClearError);
                    }
                },
                EventV::PlaybackFailed(msg) => {
                    let x = ActionV::SetError(msg);
                    lemma_one_action(x);
                    match ahead {
                        Some(k) => {
                            assert(abort_ahead(ahead).push(x) =~= seq![ActionV::Abort(k as nat), x]);
                            lemma_two_actions(ActionV::Abort(k as nat), x);
                            lemma_one_action(ActionV::Abort(k as nat));
                            assert(seq![k as nat] + e =~= seq![k as nat]);
                            assert(aborts(acts) + seq![k as nat] =~= seq![k as nat]);
                        },
                        None => {
                            assert(abort_ahead(ahead).push(x) =~= seq![x]);
                        },
                    }
                },
                EventV::PlaybackTimedOut => {
                    let x = ActionV::SetError(playback_timeout_message());
                    lemma_one_action(x);
                    match ahead {
                        Some(k) => {
                            assert(abort_ahead(ahead).push(x) =~= seq![ActionV::Abort(k as nat), x]);
                            lemma_two_actions(ActionV::Abort(k as nat), x);
                            lemma_one_action(ActionV::Abort(k as nat));
                            assert(seq![k as nat] + e =~= seq![k as nat]);
                            assert(aborts(acts) + seq![k as nat] =~= seq![k as nat]);
                        },
                        None => {
                            assert(abort_ahead(ahead).push(x) =~= seq![x]);
                        },
                    }
                },
                _ => {},
            }
        },
        PlaybackPhase::Done => {},
    }
}

proof fn lemma_run_inv(total: nat, evs: Seq<EventV>)
    requires
        total <= usize::MAX,
    ensures
        playback_inv(total, run_spec(total, evs).0, run_spec(total, evs).1),
    decreases evs.len(),
{
    if evs.len() == 0 {
        reveal_with_fuel(plays, 2);
        reveal_with_fuel(synths, 2);
        reveal_with_fuel(aborts, 2);
        assert(seq![ActionV::Synthesize(0)].drop_last() =~= Seq::<ActionV>::empty());
        assert(first_n(0) =~= Seq::<nat>::empty());
        assert(first_n(1) =~= seq![0nat]);
    } else {
        lemma_run_inv(total, evs.drop_last());
        let (ph, acts) = run_spec(total, evs.drop_last());
        lemma_step_inv(total, ph, acts, evs.last());
    }
}

/// Law: the segments of a request are played in order, each once, whatever
/// happens: the played segments are always 0, 1, ... up to some count.
pub proof fn lemma_segments_play_in_order(total: nat, evs: Seq<EventV>)
    requires
        total <= usize::MAX,
    ensures
        plays(run_spec(total, evs).1) == first_n(plays(run_spec(total, evs).1).len()),
        plays(run_spec(total, evs).1).len() <= total,
{
    lemma_run_inv(total, evs);
}

/// Law: synthesis starts in order and never runs more than one segment ahead
/// of those played; a segment whose synthesis is stopped is never played.
pub proof fn lemma_one_segment_ahead(total: nat, evs: Seq<EventV>)
    requires
        total <= usize::MAX,
    ensures
        synths(run_spec(total, evs).1) == first_n(synths(run_spec(total, evs).1).len()),
        synths(run_spec(total, evs).1).len() <= plays(run_spec(total, evs).1).len() + 1,
        synths(run_spec(total, evs).1).len() <= total,
        forall|j: int|
            0 <= j < aborts(run_spec(total, evs).1).len() ==> plays(run_spec(total, evs).1).len()
                <= #[trigger] aborts(run_spec(total, evs).1)[j],
{
    lemma_run_inv(total, evs);
    let (ph, acts) = run_spec(total, evs);
    match ph {
        PlaybackPhase::Playing { index, ahead } => {},
        _ => {},
    }
}

/// Each segment's audio becoming ready, then its playback ending: the events
/// of a request in which nothing fails.
pub open spec fn smooth_events(len: nat) -> Seq<EventV> {
    Seq::new(len, |j: int| if j % 2 == 0 { EventV::Synthesized } else { EventV::Played })
}

/// The phase after `l` events of a request of `total` segments in which
/// nothing fails.
pub open spec fn smooth_phase(total: nat, l: nat) -> PlaybackPhase {
    if l == 2 * total {
        PlaybackPhase::Done
    } else if l % 2 == 0 {
        PlaybackPhase::Synthesizing((l / 2) as usize)
    } else if l / 2 + 1 < total {
        PlaybackPhase::Playing { index: (l / 2) as usize, ahead: Some((l / 2 + 1) as usize) }
    } else {
        PlaybackPhase::Playing { index: (l / 2) as usize, ahead: None }
    }
}

proof fn lemma_smooth_run(total: nat, l: nat)
    requires
        0 < total <= usize::MAX,
        l <= 2 * total,
    ensures
        run_spec(total, smooth_events(l)).0 == smooth_phase(total, l),
        l == 2 * total ==> run_spec(total, smooth_events(l)).1.last() == ActionV::ClearError,
    decreases l,
{
    if l > 0 {
        let m = (l - 1) as nat;
        lemma_smooth_run(total, m);
        assert(smooth_events(l).drop_last() =~= smooth_events(m));
        let prev = run_spec(total, smooth_events(m));
        let ev = smooth_events(l).last();
        assert(run_spec(total, smooth_events(l)) == (
            step_spec(prev.0, total, ev).0,
            prev.1 + step_spec(prev.0, total, ev).1,
        ));
        if m % 2 == 0 {
            assert(ev == EventV::Synthesized);
            assert(m != 2 * total);
            assert(prev.0 == PlaybackPhase::Synthesizing((m / 2) as usize));
            assert(l / 2 == m / 2);
        } else {
            assert(ev == EventV::Played);
            assert(l / 2 == m / 2 + 1);
            if m / 2 + 1 < total {
                assert(l != 2 * total);
            } else {
                assert(l == 2 * total);
                assert((prev.1 + seq![ActionV::ClearError]).last() == ActionV::ClearError);
            }
        }
    } else {
        assert(smooth_phase(total, 0) == PlaybackPhase::Synthesizing(0));
    }
}

/// Law: when nothing fails, every segment is played, in order, and the
/// request ends by clearing the server's last error.
pub proof fn lemma_smooth_request_plays_all(total: nat)
    requires
        0 < total <= usize::MAX,
    ensures
        run_spec(total, smooth_events(2 * total)).0 == PlaybackPhase::Done,
        plays(run_spec(total, smooth_events(2 * total)).1) == first_n(total),
        run_spec(total, smooth_events(2 * total)).1.last() == ActionV::ClearError,
{
    lemma_smooth_run(total, 2 * total);
    lemma_smooth_run(total, (2 * total - 1) as nat);
    lemma_run_inv(total, smooth_events((2 * total - 1) as nat));
    assert(smooth_events(2 * total).drop_last() =~= smooth_events((2 * total - 1) as nat));
    let (ph, acts) = run_spec(total, smooth_events((2 * total - 1) as nat));
    lemma_plays_append(acts, seq![ActionV::ClearError]);
    reveal_with_fuel(plays, 2);
    assert(seq![ActionV::ClearError].drop_last() =~= Seq::<ActionV>::empty());
    assert(plays(acts) + plays(seq![ActionV::ClearError]) =~= plays(acts));
}

/// The playback of one speech request of `total` segments.
pub struct SegmentPlayback {
    pub total: usize,
    pub phase: PlaybackPhase,
}

impl SegmentPlayback {
    /// Starts a request: nothing to do without segments, else the synthesis
    /// of the first.
    pub fn start(total: usize) -> (r: (SegmentPlayback, Vec<SegmentAction>))
        ensures
            r.0.total == total,
            (r.0.phase, actions_view(r.1@)) == start_spec(total as nat),
    {
        let mut actions: Vec<SegmentAction> = Vec::new();
        if total == 0 {
            assert(actions_view(actions@) =~= Seq::<ActionV>::empty());
            (SegmentPlayback { total, phase: PlaybackPhase::Done }, actions)
        } else {
            actions.push(SegmentAction::Synthesize(0));
            assert(actions_view(actions@) =~= seq![ActionV::Synthesize(0)]);
            (SegmentPlayback { total, phase: PlaybackPhase::Synthesizing(0) }, actions)
        }
    }

    /// Takes an event; returns what to do next, in order.
    pub fn step(&mut self, event: SegmentEvent) -> (r: Vec<SegmentAction>)
        ensures
            final(self).total == old(self).total,
            (final(self).phase, actions_view(r@)) == step_spec(old(self).phase, old(self).total as nat, event@),
    {
        let total = self.total;
        let mut actions: Vec<SegmentAction> = Vec::new();
        match self.phase {
            PlaybackPhase::Synthesizing(i) => match event {
                SegmentEvent::Synthesized => {
                    if i < total && total - i > 1 {
                        actions.push(SegmentAction::Synthesize(i + 1));
                        actions.push(SegmentAction::Play(i));
                        self.phase = PlaybackPhase::Playing { index: i, ahead: Some(i + 1) };
                        assert(actions_view(actions@) =~= seq![
                            ActionV::Synthesize((i + 1) as nat),
                            ActionV::Play(i as nat),
                        ]);
                    } else {
                        actions.push(SegmentAction::Play(i));
                        self.phase = PlaybackPhase::Playing { index: i, ahead: None };
                        assert(actions_view(actions@) =~= seq![ActionV::Play(i as nat)]);
                    }
                },
                SegmentEvent::SynthesisFailed(e) => {
                    let ghost ev = e@;
                    actions.push(SegmentAction::SetError(e));
                    self.phase = PlaybackPhase::Done;
                    assert(actions_view(actions@) =~= seq![ActionV::SetError(ev)]);
                },
                SegmentEvent::SynthesisJoinFailed(e) => {
                    let mut m = String::from_str("failed to join segment synthesis task: ");
                    push_str(&mut m, e.as_str());
                    let ghost mv = m@;
                    actions.push(SegmentAction::SetError(m));
                    self.phase = PlaybackPhase::Done;
                    assert(actions_view(actions@) =~= seq![ActionV::SetError(mv)]);
                },
                SegmentEvent::SynthesisTimedOut => {
                    actions.push(SegmentAction::Abort(i));
                    let m = String::from_str("segment synthesis timed out after 45s");
                    let ghost mv = m@;
                    actions.push(SegmentAction::SetError(m));
                    self.phase = PlaybackPhase::Done;
                    assert(actions_view(actions@) =~= seq![ActionV::Abort(i as nat), ActionV::SetError(mv)]);
                },
                _ => {
                    assert(actions_view(actions@) =~= Seq::<ActionV>::empty());
                },
            },
            PlaybackPhase::Playing { index, ahead } => match event {
                SegmentEvent::Played => match ahead {
                    Some(k) => {
                        self.phase = PlaybackPhase::Synthesizing(k);
                        assert(actions_view(actions@) =~= Seq::<ActionV>::empty());
                    },
                    None => {
                        actions.push(SegmentAction::ClearError);
                        self.phase = PlaybackPhase::Done;
                        assert(actions_view(actions@) =~= seq![ActionV::ClearError]);
                    },
                },
                SegmentEvent::PlaybackFailed(e) => {
                    let ghost ev = e@;
                    match ahead {
                        Some(k) => actions.push(SegmentAction::Abort(k)),
                        None => {},
                    }
                    actions.push(SegmentAction::SetError(e));
                    self.phase = PlaybackPhase::Done;
                    assert(actions_view(actions@) =~= abort_ahead(ahead).push(ActionV::SetError(ev)));
                },
                SegmentEvent::PlaybackTimedOut => {
                    match ahead {
                        Some(k) => actions.push(SegmentAction::Abort(k)),
                        None => {},
                    }
                    let m = String::from_str("segment playback timed out after 30s");
                    let ghost mv = m@;
                    actions.push(SegmentAction::SetError(m));
                    self.phase = PlaybackPhase::Done;
                    assert(actions_view(actions@) =~= abort_ahead(ahead).push(ActionV::SetError(mv)));
                },
                _ => {
                    assert(actions_view(actions@) =~= Seq::<ActionV>::empty());
                },
            },
            PlaybackPhase::Done => {
                assert(actions_view(actions@) =~= Seq::<ActionV>::empty());
            },
        }
        actions
    }

    /// Whether the request is over.
    pub fn is_done(&self) -> (r: bool)
        ensures
            r == (self.phase == PlaybackPhase::Done),
    {
        match self.phase {
            PlaybackPhase::Done => true,
            _ => false,
        }
    }
}

/// Whether a speech request goes ahead.
#[derive(Debug, PartialEq, Eq)]
pub enum SpeakGate {
    /// Nothing is left to read once the text is normalized.
    Skip,
    /// The request fails with this error (also recorded as the last error).
    Refuse(String),
    /// The request is queued.
    Proceed,
}

/// The checks before a request is queued: an empty text is skipped, then
/// the voice manager must be ready and the bot connected in the server.
pub fn speak_gate(text_is_empty: bool, manager_ready: bool, connected: bool) -> (r: SpeakGate)
    ensures
        text_is_empty ==> r == SpeakGate::Skip,
        !text_is_empty && !manager_ready ==> (r matches SpeakGate::Refuse(e) && e@
            == "Voice manager is not initialized"@),
        !text_is_empty && manager_ready && !connected ==> (r matches SpeakGate::Refuse(e) && e@
            == "Not connected to a voice channel. Run /vc_join first."@),
        !text_is_empty && manager_ready && connected ==> r == SpeakGate::Proceed,
{
    if text_is_empty {
        SpeakGate::Skip
    } else if !manager_ready {
        SpeakGate::Refuse(String::from_str("Voice manager is not initialized"))
    } else if !connected {
        SpeakGate::Refuse(String::from_str("Not connected to a voice channel. Run /vc_join first."))
    } else {
        SpeakGate::Proceed
    }
}


/// How long a full queue is waited on before a request is refused, in
/// seconds.
pub const QUEUE_FULL_WAIT_SECS: u64 = 2;

/// How handing a request to its channel's queue went.
#[derive(Debug, Clone, Copy, PartialEq, Eq, Structural)]
pub enum EnqueueOutcome {
    /// The queue took it at once.
    Sent,
    /// The queue was full and took it within the wait.
    SentAfterWait,
    /// The queue's reader is gone.
    Closed,
    /// The queue stayed full for the whole wait.
    StillFull,
}

/// The error a request is answered with (and recorded as the server's last
/// error) after an enqueue, if any.
pub open spec fn enqueue_error(o: EnqueueOutcome) -> Option<Seq<char>> {
    match o {
        EnqueueOutcome::Sent => None,
        EnqueueOutcome::SentAfterWait => None,
        EnqueueOutcome::Closed => Some("Voice queue is unavailable"@),
        EnqueueOutcome::StillFull => Some(
            "Voice queue remained full for "@ + decimal(QUEUE_FULL_WAIT_SECS as nat) + "s (sequential limit="@
                + decimal(SEQUENTIAL_QUEUE_CAPACITY as nat) + ")"@,
        ),
    }
}

/// The result of a speech request once it was handed to the queue.
pub fn enqueue_result(o: EnqueueOutcome) -> (r: Result<(), String>)
    ensures
        match enqueue_error(o) {
            None => r is Ok,
            Some(e) => r matches Err(m) && m@ == e,
        },
{
    match o {
        EnqueueOutcome::Sent => Ok(()),
        EnqueueOutcome::SentAfterWait => Ok(()),
        EnqueueOutcome::Closed => Err(String::from_str("Voice queue is unavailable")),
        EnqueueOutcome::StillFull => {
            let mut s = String::from_str("Voice queue remained full for ");
            let w = u64_string(QUEUE_FULL_WAIT_SECS);
            push_str(&mut s, w.as_str());
            push_str(&mut s, "s (sequential limit=");
            let c = u64_string(SEQUENTIAL_QUEUE_CAPACITY as u64);
            push_str(&mut s, c.as_str());
            push_str(&mut s, ")");
            Err(s)
        },
    }
}


/// How a speech request starts.
pub enum SpeakStart {
    /// Nothing is left to read: the request does nothing.
    Skip,
    /// The request fails with this error, recorded as the server's last
    /// error.
    Refuse(String),
    /// The request goes to the channel's queue, read by `speaker` with the
    /// channel's parallel count set to `parallel_count`.
    Queue { speaker: u32, parallel_count: usize },
}

/// The settings after a request is refused with `e`: the error recorded as
/// the server's last one, nothing else changed.
pub open spec fn with_error(v: VoiceSettingsView, guild: u64, e: Seq<char>) -> VoiceSettingsView {
    VoiceSettingsView { errors: v.errors.insert(guild, e), ..v }
}

/// The start of `VoiceSystem::speak`: a text empty after normalization is
/// skipped; then the voice manager must be ready and the bot connected in the
/// server, or the request is refused with the error recorded (the channel's
/// parallel count untouched); otherwise the speaker is resolved and the
/// channel's parallel count set, brought into `1..=4`.
pub fn begin_speak(
    settings: &mut VoiceSettings,
    guild_id: u64,
    channel_id: u64,
    text_is_empty: bool,
    manager_ready: bool,
    connected: bool,
    speaker: Option<u32>,
    parallel_count: usize,
) -> (r: SpeakStart)
    ensures
        text_is_empty ==> (r is Skip && final(settings)@ == old(settings)@),
        !text_is_empty && !manager_ready ==> (r matches SpeakStart::Refuse(e) && e@
            == "Voice manager is not initialized"@ && final(settings)@ == with_error(old(settings)@, guild_id, e@)),
        !text_is_empty && manager_ready && !connected ==> (r matches SpeakStart::Refuse(e) && e@
            == "Not connected to a voice channel. Run /vc_join first."@ && final(settings)@ == with_error(
            old(settings)@,
            guild_id,
            e@,
        )),
        !text_is_empty && manager_ready && connected ==> (r matches SpeakStart::Queue { speaker: s, parallel_count: n }
            && s == (match speaker {
            Some(x) => x,
            None => config_of(old(settings)@, guild_id).speaker,
        }) && n == clamp_parallel(parallel_count as int) && final(settings)@ == (VoiceSettingsView {
            parallel: old(settings)@.parallel.insert(channel_id, n),
            ..old(settings)@
        })),
{
    match speak_gate(text_is_empty, manager_ready, connected) {
        SpeakGate::Skip => SpeakStart::Skip,
        SpeakGate::Refuse(e) => {
            settings.set_last_error(guild_id, e.clone());
            SpeakStart::Refuse(e)
        },
        SpeakGate::Proceed => {
            let s = settings.resolve_speaker(guild_id, speaker);
            let n = settings.set_channel_parallel_count(channel_id, parallel_count);
            SpeakStart::Queue { speaker: s, parallel_count: n }
        },
    }
}

/// The end of `VoiceSystem::speak`, once the request was handed to its
/// queue: an error is recorded as the server's last one.
pub fn finish_speak(settings: &mut VoiceSettings, guild_id: u64, outcome: EnqueueOutcome) -> (r: Result<(), String>)
    ensures
        match enqueue_error(outcome) {
            None => r is Ok && final(settings)@ == old(settings)@,
            Some(e) => r matches Err(m) && m@ == e && final(settings)@ == with_error(old(settings)@, guild_id, e),
        },
{
    let r = enqueue_result(outcome);
    match &r {
        Ok(()) => {},
        Err(e) => settings.set_last_error(guild_id, e.clone()),
    }
    r
}

} // verus!
