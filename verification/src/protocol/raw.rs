//! The decoded envelope: what a header plus reassembled body mean to the
//! broker. The first byte of `routing_mod` selects command versus message
//! versus no-op, the second selects the sub-kind, the third the routing-key
//! variant; unknown discriminators fall to the explicit no-op variants.

use vstd::prelude::*;

verus! {

use crate::routing::key::{RoutingKey, RoutingKeyModel};

/// The protocol-level intent of a dispatch: a fetch is tagged `Read`,
/// everything else `Write`. Every dispatch may mutate broker state — even a
/// fetch pops a queue — so callers guarding shared state take an exclusive
/// lock for both; the tag records the intent the wire protocol declares.
pub enum IOType {
    Read,
    Write,
}

/// A control operation on the resolved exchange node, with its raw payload.
pub enum RawCommand {
    NewQueue(Vec<u8>),
    NewExchange(Vec<u8>),
    NewBinding(Vec<u8>),
    DropQueue(Vec<u8>),
    DropExchange(Vec<u8>),
    DropBinding(Vec<u8>),
    Nop,
}

/// A message operation on the queue named by routing segment 3.
pub enum RawMessage {
    Push(Vec<u8>),
    Fetch(Vec<u8>),
    Nop,
}

/// The payload of an envelope: a message, a command, or nothing.
pub enum Raw {
    Message(RawMessage),
    Command(RawCommand),
    Nop,
}

/// The mathematical value of a command payload.
pub enum RawCommandModel {
    NewQueue(Seq<u8>),
    NewExchange(Seq<u8>),
    NewBinding(Seq<u8>),
    DropQueue(Seq<u8>),
    DropExchange(Seq<u8>),
    DropBinding(Seq<u8>),
    Nop,
}

/// The mathematical value of a message payload.
pub enum RawMessageModel {
    Push(Seq<u8>),
    Fetch(Seq<u8>),
    Nop,
}

/// The mathematical value of an envelope payload.
pub enum RawModel {
    Message(RawMessageModel),
    Command(RawCommandModel),
    Nop,
}

impl View for RawCommand {
    type V = RawCommandModel;

    open spec fn view(&self) -> RawCommandModel {
        match self {
            RawCommand::NewQueue(d) => RawCommandModel::NewQueue(d@),
            RawCommand::NewExchange(d) => RawCommandModel::NewExchange(d@),
            RawCommand::NewBinding(d) => RawCommandModel::NewBinding(d@),
            RawCommand::DropQueue(d) => RawCommandModel::DropQueue(d@),
            RawCommand::DropExchange(d) => RawCommandModel::DropExchange(d@),
            RawCommand::DropBinding(d) => RawCommandModel::DropBinding(d@),
            RawCommand::Nop => RawCommandModel::Nop,
        }
    }
}

impl View for RawMessage {
    type V = RawMessageModel;

    open spec fn view(&self) -> RawMessageModel {
        match self {
            RawMessage::Push(d) => RawMessageModel::Push(d@),
            RawMessage::Fetch(d) => RawMessageModel::Fetch(d@),
            RawMessage::Nop => RawMessageModel::Nop,
        }
    }
}

impl View for Raw {
    type V = RawModel;

    open spec fn view(&self) -> RawModel {
        match self {
            Raw::Message(m) => RawModel::Message(m@),
            Raw::Command(c) => RawModel::Command(c@),
            Raw::Nop => RawModel::Nop,
        }
    }
}

/// One decoded envelope, ready for dispatch: the payload, the channel it
/// arrived on, the target virtual host, the routing key, and the read or
/// write intent of the dispatch.
pub struct RawData {
    pub raw: Raw,
    pub channel: String,
    pub virtual_host: String,
    pub routing_key: RoutingKey,
    pub io_type: IOType,
}

/// The mathematical value of a decoded envelope.
#[verifier::ext_equal]
pub struct RawDataModel {
    pub raw: RawModel,
    pub channel: Seq<char>,
    pub virtual_host: Seq<char>,
    pub routing_key: RoutingKeyModel,
    pub read_intent: bool,
}

impl View for RawData {
    type V = RawDataModel;

    open spec fn view(&self) -> RawDataModel {
        RawDataModel {
            raw: self.raw@,
            channel: self.channel@,
            virtual_host: self.virtual_host@,
            routing_key: self.routing_key@,
            read_intent: self.io_type is Read,
        }
    }
}

} // verus!
