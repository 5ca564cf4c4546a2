//! Verified core of the DJI flight-record to MCAP converter: the protobuf
//! wire encoding of media messages, the channel bookkeeping of the MCAP
//! writer, the matching of media files to a flight, and the assembly of the
//! telemetry messages.

pub mod protobuf;
pub mod schemas;
pub mod transformers;
pub mod channels;
pub mod media;
pub mod names;
pub mod pipeline;
