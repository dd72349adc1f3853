use nelfie::playback::{enqueue_result, EnqueueOutcome, speak_gate, PlaybackPhase, SegmentAction, SegmentEvent, SegmentPlayback, SpeakGate};

#[test]
fn a_request_without_segments_does_nothing() {
    let (p, actions) = SegmentPlayback::start(0);
    assert!(p.is_done());
    assert!(actions.is_empty());
}

#[test]
fn segments_play_in_order_one_synthesis_ahead() {
    let (mut p, actions) = SegmentPlayback::start(3);
    assert_eq!(actions, vec![SegmentAction::Synthesize(0)]);
    assert_eq!(p.step(SegmentEvent::Synthesized), vec![SegmentAction::Synthesize(1), SegmentAction::Play(0)]);
    assert_eq!(p.phase, PlaybackPhase::Playing { index: 0, ahead: Some(1) });
    assert_eq!(p.step(SegmentEvent::Played), vec![]);
    assert_eq!(p.phase, PlaybackPhase::Synthesizing(1));
    assert_eq!(p.step(SegmentEvent::Synthesized), vec![SegmentAction::Synthesize(2), SegmentAction::Play(1)]);
    assert_eq!(p.step(SegmentEvent::Played), vec![]);
    assert_eq!(p.step(SegmentEvent::Synthesized), vec![SegmentAction::Play(2)]);
    assert_eq!(p.phase, PlaybackPhase::Playing { index: 2, ahead: None });
    assert_eq!(p.step(SegmentEvent::Played), vec![SegmentAction::ClearError]);
    assert!(p.is_done());
    assert_eq!(p.step(SegmentEvent::Played), vec![]);
}

#[test]
fn a_failed_playback_stops_the_synthesis_ahead() {
    let (mut p, _) = SegmentPlayback::start(2);
    p.step(SegmentEvent::Synthesized);
    assert_eq!(
        p.step(SegmentEvent::PlaybackFailed("device lost".to_string())),
        vec![SegmentAction::Abort(1), SegmentAction::SetError("device lost".to_string())]
    );
    assert!(p.is_done());
}

#[test]
fn synthesis_failures_end_the_request_with_their_error() {
    let (mut p, _) = SegmentPlayback::start(2);
    p.step(SegmentEvent::Synthesized);
    p.step(SegmentEvent::Played);
    assert_eq!(
        p.step(SegmentEvent::SynthesisTimedOut),
        vec![SegmentAction::Abort(1), SegmentAction::SetError("segment synthesis timed out after 45s".to_string())]
    );

    let (mut q, _) = SegmentPlayback::start(1);
    assert_eq!(
        q.step(SegmentEvent::SynthesisJoinFailed("task panicked".to_string())),
        vec![SegmentAction::SetError("failed to join segment synthesis task: task panicked".to_string())]
    );

    let (mut r, _) = SegmentPlayback::start(1);
    r.step(SegmentEvent::Synthesized);
    assert_eq!(
        r.step(SegmentEvent::PlaybackTimedOut),
        vec![SegmentAction::SetError("segment playback timed out after 30s".to_string())]
    );
}

#[test]
fn events_a_phase_does_not_wait_for_change_nothing() {
    let (mut p, _) = SegmentPlayback::start(2);
    assert_eq!(p.step(SegmentEvent::Played), vec![]);
    assert_eq!(p.phase, PlaybackPhase::Synthesizing(0));
}

#[test]
fn speech_requests_are_checked_before_queueing() {
    assert_eq!(speak_gate(true, false, false), SpeakGate::Skip);
    assert_eq!(speak_gate(false, false, true), SpeakGate::Refuse("Voice manager is not initialized".to_string()));
    assert_eq!(
        speak_gate(false, true, false),
        SpeakGate::Refuse("Not connected to a voice channel. Run /vc_join first.".to_string())
    );
    assert_eq!(speak_gate(false, true, true), SpeakGate::Proceed);
}

#[test]
fn enqueue_outcomes() {
    assert_eq!(enqueue_result(EnqueueOutcome::Sent), Ok(()));
    assert_eq!(enqueue_result(EnqueueOutcome::SentAfterWait), Ok(()));
    assert_eq!(enqueue_result(EnqueueOutcome::Closed), Err("Voice queue is unavailable".to_string()));
    assert_eq!(
        enqueue_result(EnqueueOutcome::StillFull),
        Err("Voice queue remained full for 2s (sequential limit=16)".to_string())
    );
}
