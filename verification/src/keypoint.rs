//! Keypoints: free-form annotations on the robot's clock. They are delivered
//! and recorded, never interpreted.
use crate::name_set::NameSet;
use vstd::prelude::*;

verus! {

/// Topic of the packets.
pub const KEYPOINT_TOPIC: &'static str = "portal_keypoint";

/// An annotation.
#[derive(Debug, Clone, PartialEq, Eq)]
pub struct Keypoint {
    /// What the annotation says it is.
    pub kind: String,
    /// JSON text of its payload, an object.
    pub payload: String,
    /// Where the mark belongs, on the robot's clock.
    pub timestamp_us: u64,
    /// Identity of the participant that sent it.
    pub sender: String,
}

/// What a packet holds.
#[derive(Debug, Clone, PartialEq, Eq)]
pub struct KeypointWire {
    pub kind: String,
    /// JSON text of the payload; `None` where the packet has none.
    pub payload: Option<String>,
    pub timestamp_us: u64,
}

/// What came of a packet.
#[derive(Debug)]
pub enum KeypointOutcome {
    Deliver(Keypoint),
    /// The packet could not be read. `first` says whether that is to be
    /// reported: once for every sender.
    Malformed { first: bool },
}

/// The senders whose packets could not be read.
#[derive(Debug)]
pub struct KeypointSlot {
    warned: NameSet,
}

impl View for KeypointSlot {
    type V = Set<Seq<char>>;

    /// The senders that were reported.
    closed spec fn view(&self) -> Set<Seq<char>> {
        self.warned@
    }
}

impl KeypointSlot {
    pub fn new() -> (s: Self)
        ensures
            s@ == Set::<Seq<char>>::empty(),
    {
        KeypointSlot { warned: NameSet::new() }
    }

    /// Takes in what was read from a packet, or that it could not be read. A
    /// packet without a payload stands for an empty object.
    pub fn handle_packet(
        &mut self,
        decoded: Option<KeypointWire>,
        sender: String,
    ) -> (outcome: KeypointOutcome)
        ensures
            match decoded {
                Some(wire) => {
                    &&& final(self)@ == old(self)@
                    &&& outcome matches KeypointOutcome::Deliver(k) && k.kind == wire.kind
                        && k.payload@ == (match wire.payload {
                        Some(p) => p@,
                        None => "{}"@,
                    }) && k.timestamp_us == wire.timestamp_us && k.sender == sender
                },
                None => {
                    &&& final(self)@ == old(self)@.insert(sender@)
                    &&& outcome == (KeypointOutcome::Malformed {
                        first: !old(self)@.contains(sender@),
                    })
                },
            },
    {
        match decoded {
            Some(wire) => KeypointOutcome::Deliver(
                Keypoint {
                    kind: wire.kind,
                    payload: match wire.payload {
                        Some(p) => p,
                        None => "{}".to_owned(),
                    },
                    timestamp_us: wire.timestamp_us,
                    sender,
                },
            ),
            None => {
                let first: bool = self.warned.insert(sender.as_str());
                KeypointOutcome::Malformed { first }
            },
        }
    }
}

} // verus!
