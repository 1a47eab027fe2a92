use proximity_relay::dispatch::Directive;
use proximity_relay::driver::{driver_step, flow_after, Flow, Step, Wake};
use proximity_relay::error::ProtocolError;

#[test]
fn driver_steps() {
    assert_eq!(driver_step(Wake::Tick), Step::Reevaluate);
    assert_eq!(driver_step(Wake::Received), Step::Dispatch);
    assert_eq!(driver_step(Wake::ReceiveFailed), Step::Idle);
    assert_eq!(driver_step(Wake::Queued), Step::Forward);
    assert_eq!(driver_step(Wake::QueueClosed), Step::Stop);
    assert_eq!(driver_step(Wake::TransportEnded), Step::Stop);
}

#[test]
fn flows_after_directives() {
    assert_eq!(flow_after(&Directive::Logout { account_id: 3 }), Flow::Terminate(ProtocolError::LoggedOut));
    assert_eq!(
        flow_after(&Directive::Fail(ProtocolError::InvalidDataType)),
        Flow::Fatal(ProtocolError::InvalidDataType)
    );
    assert_eq!(flow_after(&Directive::Continue), Flow::Continue);
    assert_eq!(flow_after(&Directive::UpdatePosition), Flow::Continue);
    assert_eq!(flow_after(&Directive::Relay { recipients: vec![1] }), Flow::Continue);
}
