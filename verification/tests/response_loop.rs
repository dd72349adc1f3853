use nelfie::lm_context::{ContextItem, LMContext};
use nelfie::response_loop::{
    round_outcome, stream_step, tool_output, tool_status, ResponseRounds, RoundOutcome, StreamEvent,
    StreamOutcome, ToolChoice,
};

#[test]
fn rounds_turn_tools_off_for_the_last_request() {
    let mut rounds = ResponseRounds::start();
    let mut requests = 0;
    let mut choices = Vec::new();
    while rounds.request_due() {
        requests += 1;
        choices.push(rounds.tool_choice);
        rounds.next_round();
    }
    assert_eq!(requests, 10);
    assert!(choices[..9].iter().all(|c| *c == ToolChoice::Auto));
    assert_eq!(choices[9], ToolChoice::NoTools);
}

#[test]
fn a_round_without_pending_calls_finishes() {
    assert_eq!(round_outcome(0), RoundOutcome::Finished);
    assert_eq!(round_outcome(2), RoundOutcome::RunTools);
}

#[test]
fn stream_events_report_and_keep() {
    let mut tokens = 0usize;
    let mut ctx = LMContext::new();

    let step = stream_step(&mut tokens, &mut ctx, StreamEvent::Created(3));
    assert_eq!(step.status.as_deref(), Some("Response created (seq 3)"));
    assert!(matches!(step.outcome, StreamOutcome::Continue));

    let step = stream_step(&mut tokens, &mut ctx, StreamEvent::Queued(4));
    assert_eq!(step.status.as_deref(), Some("Response queued... (seq 4)"));

    let step = stream_step(&mut tokens, &mut ctx, StreamEvent::TextDelta("Hel".to_string()));
    assert_eq!(step.delta.as_deref(), Some("Hel"));
    let step = stream_step(&mut tokens, &mut ctx, StreamEvent::TextDelta("lo".to_string()));
    assert_eq!(step.status.as_deref(), Some("Generating... (2 tokens)"));
    assert_eq!(tokens, 2);

    let step = stream_step(&mut tokens, &mut ctx, StreamEvent::MessageDone(String::new()));
    assert!(step.status.is_none());
    assert_eq!(ctx.buf.len(), 0);
    stream_step(&mut tokens, &mut ctx, StreamEvent::MessageDone("Hello".to_string()));
    assert_eq!(ctx.buf.len(), 1);
    assert_eq!(ctx.get_result(), "Hello");

    let step = stream_step(&mut tokens, &mut ctx, StreamEvent::Completed);
    assert!(matches!(step.outcome, StreamOutcome::RoundDone));
    match stream_step(&mut tokens, &mut ctx, StreamEvent::Failed).outcome {
        StreamOutcome::Failed(m) => assert_eq!(m, "Response failed"),
        _ => panic!("failure expected"),
    }
    match stream_step(&mut tokens, &mut ctx, StreamEvent::Error("rate limited".to_string())).outcome {
        StreamOutcome::Failed(m) => assert_eq!(m, "rate limited"),
        _ => panic!("failure expected"),
    }
    let step = stream_step(&mut tokens, &mut ctx, StreamEvent::RefusalDone("no".to_string()));
    assert_eq!(step.status.as_deref(), Some("no"));
}

#[test]
fn tool_outputs_and_status() {
    match tool_output("c1".to_string(), Ok("done".to_string())) {
        ContextItem::FunctionCallOutput { call_id, output } => {
            assert_eq!(call_id, "c1");
            assert_eq!(output, "done");
        }
        _ => panic!("output expected"),
    }
    match tool_output("c2".to_string(), Err("boom".to_string())) {
        ContextItem::FunctionCallOutput { output, .. } => assert_eq!(output, "Error: boom"),
        _ => panic!("output expected"),
    }
    assert_eq!(
        tool_status("get-location-time", "{\"country_code\":\"JP\",\"$explain\":\"checking the clock\"}"),
        "Executing tool: get-location-time - checking the clock"
    );
    assert_eq!(tool_status("get-location-time", "{\"country_code\":\"JP\"}"), "Executing tool: get-location-time");
    assert_eq!(tool_status("x", "not json"), "Executing tool: x");
}
