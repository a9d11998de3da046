use vstd::prelude::*;

verus! {

use crate::v5::error::MqttError;

/// A length-prefixed MQTT string: an immutable byte buffer carrying UTF-8,
/// at most 65,535 bytes long so that its length fits the u16 prefix.
#[derive(Debug, Clone, PartialEq, Eq, Hash, Default)]
pub struct MqttString {
    bytes: Vec<u8>,
}

impl View for MqttString {
    type V = Seq<u8>;

    closed spec fn view(&self) -> Seq<u8> {
        self.bytes@
    }
}

impl MqttString {
    /// The invariant every string of the wire format obeys.
    pub open spec fn wf(self) -> bool {
        self@.len() <= 0xFFFF
    }

    /// Wrap a byte buffer whose length is known to fit the u16 prefix.
    pub fn new(bytes: Vec<u8>) -> (r: MqttString)
        requires
            bytes@.len() <= 0xFFFF,
        ensures
            r@ == bytes@,
            r.wf(),
    {
        MqttString { bytes }
    }

    /// Wrap a byte buffer, rejecting one longer than 65,535 bytes.
    pub fn try_new(bytes: Vec<u8>) -> (r: Result<MqttString, MqttError>)
        ensures
            match r {
                Ok(s) => s@ == bytes@ && s.wf(),
                Err(e) => bytes@.len() > 0xFFFF && e == MqttError::MalformedPacket,
            },
    {
        if bytes.len() <= 0xFFFF {
            Ok(MqttString { bytes })
        } else {
            Err(MqttError::MalformedPacket)
        }
    }

    pub fn len(&self) -> (r: usize)
        ensures
            r == self@.len(),
    {
        self.bytes.len()
    }

    pub fn is_empty(&self) -> (r: bool)
        ensures
            r == (self@.len() == 0),
    {
        self.bytes.len() == 0
    }

    /// The bytes of the string.
    pub fn as_bytes(&self) -> (r: &Vec<u8>)
        ensures
            r@ == self@,
    {
        &self.bytes
    }

}

} // verus!
