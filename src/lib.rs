//! Message codec and streaming response body for a protocol-buffer RPC
//! framework: encoders and decoders that move one typed message to and from
//! exact wire bytes, and a pull-driven adapter that turns a stream of
//! messages into body chunks followed by trailers.

pub mod buf;
pub mod codec;
pub mod encode;
pub mod server;
pub mod status;

pub use buf::{DecodeBuf, EncodeBuf, BUFFER_FULL, MAX_BUFFER_LEN, SIZE_MISMATCH};
pub use codec::{from_decode_error, Codec, Decoder, Encoder, Message, CONTENT_TYPE, UNREAD_BYTES};
pub use encode::{DataPoll, Encode, SourceEvent};
pub use server::{unimplemented, ResponseFuture};
pub use status::{Code, Status};
