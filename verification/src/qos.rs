use vstd::prelude::*;

verus! {

use crate::v5::types::ControlPacket;
use crate::v5::types::ControlPacketView;
use crate::v5::types::QoS;
use crate::v5::types::ReasonCode;

/// Which acknowledgement a publish handshake is waiting for.
#[derive(Debug, Clone, Copy, PartialEq, Eq, Structural)]
pub enum FlowPhase {
    AwaitAck,
    AwaitRec,
    AwaitComp,
    Done,
}

/// What the driver of a handshake must do next.
#[derive(Debug, Clone, Copy, PartialEq, Eq, Structural)]
pub enum FlowStep {
    /// Send the publish again, with the dup flag as given.
    Resend { dup: bool },
    /// Send a PubRel with reason success and await the PubComp.
    SendRel,
    /// The handshake is over: hand this reason to the caller and, when asked,
    /// release the packet identifier.
    Complete { reason: ReasonCode, release: bool },
    /// The last retry timed out: the operation failed and the identifier is
    /// released.
    Fail { release: bool },
    /// A packet that does not belong to this handshake arrived.
    Unexpected,
}

/// How many retransmissions a handshake attempts after the first send.
pub const FLOW_RETRIES: u8 = 3;

/// The state of one in-flight publish handshake at qos 1 or 2: which
/// acknowledgement it expects for which packet identifier, and how many
/// retries are left.
#[derive(Debug, Clone, Copy, PartialEq, Eq, Structural)]
pub struct PublishFlow {
    pub qos: QoS,
    pub packet_identifier: u16,
    pub retries_left: u8,
    pub phase: FlowPhase,
}

impl PublishFlow {
    /// A handshake still in progress expects the acknowledgement its qos
    /// asks for.
    pub open spec fn wf(self) -> bool {
        match self.phase {
            FlowPhase::AwaitAck => self.qos == QoS::AtLeastOnce,
            FlowPhase::AwaitRec => self.qos == QoS::ExactlyOnce,
            FlowPhase::AwaitComp => self.qos == QoS::ExactlyOnce,
            FlowPhase::Done => true,
        }
    }

    /// Start a handshake for one allocated identifier: the first publish was
    /// just sent with dup clear.
    pub fn start(qos: QoS, packet_identifier: u16) -> (r: PublishFlow)
        requires
            qos != QoS::AtMostOnce,
        ensures
            r.wf(),
            r.qos == qos,
            r.packet_identifier == packet_identifier,
            r.retries_left == FLOW_RETRIES,
            r.phase == (if qos == QoS::AtLeastOnce {
                FlowPhase::AwaitAck
            } else {
                FlowPhase::AwaitRec
            }),
    {
        let phase = if qos.as_u8() == 1 {
            FlowPhase::AwaitAck
        } else {
            FlowPhase::AwaitRec
        };
        PublishFlow { qos, packet_identifier, retries_left: FLOW_RETRIES, phase }
    }

    /// The acknowledgement wait timed out: retry while retries remain,
    /// otherwise fail and release the identifier.
    pub fn on_timeout(&mut self) -> (r: FlowStep)
        requires
            old(self).wf(),
            old(self).phase != FlowPhase::Done,
        ensures
            final(self).wf(),
            final(self).qos == old(self).qos,
            final(self).packet_identifier == old(self).packet_identifier,
            old(self).retries_left > 0 ==> final(self).retries_left == old(self).retries_left - 1
                && final(self).phase == old(self).phase && r == (match old(self).phase {
                FlowPhase::AwaitComp => FlowStep::SendRel,
                _ => FlowStep::Resend { dup: true },
            }),
            old(self).retries_left == 0 ==> final(self).phase == FlowPhase::Done && r
                == (FlowStep::Fail { release: true }),
    {
        if self.retries_left > 0 {
            self.retries_left = self.retries_left - 1;
            match self.phase {
                FlowPhase::AwaitComp => FlowStep::SendRel,
                _ => FlowStep::Resend { dup: true },
            }
        } else {
            self.phase = FlowPhase::Done;
            FlowStep::Fail { release: true }
        }
    }

    /// A packet arrived while waiting: a matching acknowledgement advances
    /// the handshake, anything else is unexpected and changes nothing. A
    /// PubRec whose reason is not success ends the handshake with that
    /// reason and no PubRel is sent.
    pub fn on_packet(&mut self, packet: &ControlPacket) -> (r: FlowStep)
        requires
            old(self).wf(),
        ensures
            final(self).wf(),
            final(self).qos == old(self).qos,
            final(self).packet_identifier == old(self).packet_identifier,
            ({
                let pid = old(self).packet_identifier;
                match old(self).phase {
                    FlowPhase::AwaitAck => match packet@ {
                        ControlPacketView::PubAck(res) => if res.packet_identifier == pid {
                            r == (FlowStep::Complete { reason: res.reason_code, release: true })
                                && final(self).phase == FlowPhase::Done
                        } else {
                            r == FlowStep::Unexpected && *final(self) == *old(self)
                        },
                        _ => r == FlowStep::Unexpected && *final(self) == *old(self),
                    },
                    FlowPhase::AwaitRec => match packet@ {
                        ControlPacketView::PubRec(res) => if res.packet_identifier == pid {
                            if res.reason_code == ReasonCode::Success {
                                r == FlowStep::SendRel && final(self).phase == FlowPhase::AwaitComp
                                    && final(self).retries_left == FLOW_RETRIES
                            } else {
                                r == (FlowStep::Complete {
                                    reason: res.reason_code,
                                    release: true,
                                }) && final(self).phase == FlowPhase::Done
                            }
                        } else {
                            r == FlowStep::Unexpected && *final(self) == *old(self)
                        },
                        _ => r == FlowStep::Unexpected && *final(self) == *old(self),
                    },
                    FlowPhase::AwaitComp => match packet@ {
                        ControlPacketView::PubComp(res) => if res.packet_identifier == pid {
                            r == (FlowStep::Complete { reason: res.reason_code, release: true })
                                && final(self).phase == FlowPhase::Done
                        } else {
                            r == FlowStep::Unexpected && *final(self) == *old(self)
                        },
                        _ => r == FlowStep::Unexpected && *final(self) == *old(self),
                    },
                    FlowPhase::Done => r == FlowStep::Unexpected && *final(self) == *old(self),
                }
            }),
    {
        match self.phase {
            FlowPhase::AwaitAck => match packet {
                ControlPacket::PubAck(res) => {
                    if res.packet_identifier == self.packet_identifier {
                        self.phase = FlowPhase::Done;
                        FlowStep::Complete { reason: res.reason_code, release: true }
                    } else {
                        FlowStep::Unexpected
                    }
                },
                _ => FlowStep::Unexpected,
            },
            FlowPhase::AwaitRec => match packet {
                ControlPacket::PubRec(res) => {
                    if res.packet_identifier == self.packet_identifier {
                        if res.reason_code.as_u8() == 0 {
                            self.phase = FlowPhase::AwaitComp;
                            self.retries_left = FLOW_RETRIES;
                            FlowStep::SendRel
                        } else {
                            self.phase = FlowPhase::Done;
                            FlowStep::Complete { reason: res.reason_code, release: true }
                        }
                    } else {
                        FlowStep::Unexpected
                    }
                },
                _ => FlowStep::Unexpected,
            },
            FlowPhase::AwaitComp => match packet {
                ControlPacket::PubComp(res) => {
                    if res.packet_identifier == self.packet_identifier {
                        self.phase = FlowPhase::Done;
                        FlowStep::Complete { reason: res.reason_code, release: true }
                    } else {
                        FlowStep::Unexpected
                    }
                },
                _ => FlowStep::Unexpected,
            },
            FlowPhase::Done => FlowStep::Unexpected,
        }
    }
}

} // verus!
