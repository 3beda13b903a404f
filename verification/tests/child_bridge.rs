use xai_grok_pager::child_bridge::{pump_step, PumpAction, PumpDirection, PumpEvent};

#[test]
fn line_is_forwarded_with_newline() {
    for direction in [PumpDirection::FromAgent, PumpDirection::ToAgent] {
        assert_eq!(
            pump_step(direction, PumpEvent::Line("{\"jsonrpc\":\"2.0\"}".to_string())),
            PumpAction::Write(b"{\"jsonrpc\":\"2.0\"}\n".to_vec())
        );
        assert_eq!(pump_step(direction, PumpEvent::Line(String::new())), PumpAction::Write(b"\n".to_vec()));
        assert_eq!(
            pump_step(direction, PumpEvent::Line("é".to_string())),
            PumpAction::Write(vec![0xc3, 0xa9, b'\n'])
        );
    }
}

#[test]
fn agent_output_ending_cancels_bridge() {
    let from = PumpDirection::FromAgent;
    assert_eq!(pump_step(from, PumpEvent::EndOfStream), PumpAction::Stop { cancel_bridge: true });
    assert_eq!(pump_step(from, PumpEvent::ReadFailed), PumpAction::Stop { cancel_bridge: true });
    assert_eq!(pump_step(from, PumpEvent::WriteFailed), PumpAction::Stop { cancel_bridge: false });
    assert_eq!(pump_step(from, PumpEvent::Cancelled), PumpAction::Stop { cancel_bridge: false });
}

#[test]
fn failing_to_reach_agent_cancels_bridge() {
    let to = PumpDirection::ToAgent;
    assert_eq!(pump_step(to, PumpEvent::WriteFailed), PumpAction::Stop { cancel_bridge: true });
    assert_eq!(pump_step(to, PumpEvent::EndOfStream), PumpAction::Stop { cancel_bridge: false });
    assert_eq!(pump_step(to, PumpEvent::ReadFailed), PumpAction::Stop { cancel_bridge: false });
    assert_eq!(pump_step(to, PumpEvent::Cancelled), PumpAction::Stop { cancel_bridge: false });
}
