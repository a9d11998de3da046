use mqtt5::qos::FlowPhase;
use mqtt5::qos::FlowStep;
use mqtt5::qos::PublishFlow;
use mqtt5::v5::property::ResponseProperties;
use mqtt5::v5::types::ControlPacket;
use mqtt5::v5::types::PublishResponse;
use mqtt5::v5::types::QoS;
use mqtt5::v5::types::ReasonCode;

fn ack(kind: fn(PublishResponse) -> ControlPacket, id: u16, reason: ReasonCode) -> ControlPacket {
    kind(PublishResponse {
        packet_identifier: id,
        reason_code: reason,
        properties: ResponseProperties { reason_string: None, user_properties: vec![] },
    })
}

#[test]
fn qos1_ack_in_time_completes_after_one_send() {
    let mut flow = PublishFlow::start(QoS::AtLeastOnce, 42);
    assert_eq!(flow.phase, FlowPhase::AwaitAck);
    let step = flow.on_packet(&ack(ControlPacket::PubAck, 42, ReasonCode::Success));
    assert_eq!(step, FlowStep::Complete { reason: ReasonCode::Success, release: true });
    assert_eq!(flow.phase, FlowPhase::Done);
}

#[test]
fn qos1_timeout_resends_with_dup_then_completes() {
    let mut flow = PublishFlow::start(QoS::AtLeastOnce, 42);
    // the first PubAck never arrives; after the timeout one resend goes out
    let step = flow.on_timeout();
    assert_eq!(step, FlowStep::Resend { dup: true });
    // the second transmission is acknowledged
    let step = flow.on_packet(&ack(ControlPacket::PubAck, 42, ReasonCode::Success));
    assert_eq!(step, FlowStep::Complete { reason: ReasonCode::Success, release: true });
}

#[test]
fn qos2_success_walks_rel_and_comp() {
    let mut flow = PublishFlow::start(QoS::ExactlyOnce, 7);
    assert_eq!(flow.phase, FlowPhase::AwaitRec);
    let step = flow.on_packet(&ack(ControlPacket::PubRec, 7, ReasonCode::Success));
    assert_eq!(step, FlowStep::SendRel);
    assert_eq!(flow.phase, FlowPhase::AwaitComp);
    let step = flow.on_packet(&ack(ControlPacket::PubComp, 7, ReasonCode::Success));
    assert_eq!(step, FlowStep::Complete { reason: ReasonCode::Success, release: true });
}

#[test]
fn qos2_rejected_rec_releases_without_rel() {
    let mut flow = PublishFlow::start(QoS::ExactlyOnce, 7);
    let step = flow.on_packet(&ack(ControlPacket::PubRec, 7, ReasonCode::UnspecifiedError));
    assert_eq!(
        step,
        FlowStep::Complete { reason: ReasonCode::UnspecifiedError, release: true }
    );
    assert_eq!(flow.phase, FlowPhase::Done);
}

#[test]
fn mismatched_identifier_is_unexpected() {
    let mut flow = PublishFlow::start(QoS::AtLeastOnce, 42);
    let step = flow.on_packet(&ack(ControlPacket::PubAck, 41, ReasonCode::Success));
    assert_eq!(step, FlowStep::Unexpected);
    assert_eq!(flow.phase, FlowPhase::AwaitAck);
}

#[test]
fn final_timeout_fails_and_releases() {
    let mut flow = PublishFlow::start(QoS::AtLeastOnce, 3);
    assert_eq!(flow.on_timeout(), FlowStep::Resend { dup: true });
    assert_eq!(flow.on_timeout(), FlowStep::Resend { dup: true });
    assert_eq!(flow.on_timeout(), FlowStep::Resend { dup: true });
    assert_eq!(flow.on_timeout(), FlowStep::Fail { release: true });
    assert_eq!(flow.phase, FlowPhase::Done);
}

#[test]
fn comp_timeout_resends_rel() {
    let mut flow = PublishFlow::start(QoS::ExactlyOnce, 9);
    flow.on_packet(&ack(ControlPacket::PubRec, 9, ReasonCode::Success));
    assert_eq!(flow.on_timeout(), FlowStep::SendRel);
    let step = flow.on_packet(&ack(ControlPacket::PubComp, 9, ReasonCode::Success));
    assert_eq!(step, FlowStep::Complete { reason: ReasonCode::Success, release: true });
}
