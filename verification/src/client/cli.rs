//! Minimal Redis client implementation
//!
//! What each request looks like on the wire, and what its answer means.

use crate::client::subscriber::Subscriber;
use crate::cmd::bulk_of;
use crate::connection::connect::Connection;
use crate::connection::frame::{Frame, FrameView};
use crate::error::MiniRedisConnectionError;
use crate::text::str_eq;
use crate::trusted::buf::contents;
use bytes::Bytes;
use vstd::prelude::*;
use vstd::utf8::encode_utf8;

verus! {

/// The client's end of a connection with a Redis server.
///
/// Requests are built with the commands' `into_frame`; what comes back is
/// decoded by `connection` and judged by the methods of `Client`.
pub struct Client {
    /// The connection's buffers, with the redis protocol encoder / decoder.
    pub connection: Connection,
}

/// What a response that was read means to a client: an error frame is the
/// failure of the command, and the end of the stream the loss of the
/// connection.
pub open spec fn response_ok(response: Option<FrameView>) -> bool {
    response matches Some(frame) && !(frame is Error)
}

impl Client {
    /// A client that has received nothing yet.
    pub fn new() -> (client: Client)
        ensures
            client.connection@ == Seq::<u8>::empty(),
    {
        Client { connection: Connection::new() }
    }

    /// Judges a response that was read from the socket.
    ///
    /// If an `Error` frame is received, it is converted to `Err`.
    pub fn read_response(response: Option<Frame>) -> (r: Result<Frame, MiniRedisConnectionError>)
        ensures
            match response {
                Some(frame) => match frame@ {
                    FrameView::Error(message) => r is Err && r->Err_0.is_command_execute(message),
                    _ => r == Ok::<Frame, MiniRedisConnectionError>(frame),
                },
                None => r matches Err(MiniRedisConnectionError::Disconnect),
            },
    {
        match response {
            // Error frames are converted to `Err`
            Some(Frame::Error(msg)) => Err(MiniRedisConnectionError::CommandExecute(msg)),
            Some(frame) => Ok(frame),
            None => {
                // Receiving `None` here indicates the server has closed the
                // connection without sending a frame. This is unexpected and is
                // represented as a "connection reset by peer" error.
                Err(MiniRedisConnectionError::Disconnect)
            },
        }
    }

    /// The answer to `PING`: the text that came back, as bytes.
    pub fn ping_response(response: Frame) -> (r: Result<Bytes, MiniRedisConnectionError>)
        ensures
            match response@ {
                FrameView::Simple(value) => r is Ok && contents(r->Ok_0) == encode_utf8(value),
                FrameView::Bulk(value) => r is Ok && contents(r->Ok_0) == value,
                _ => r is Err && r->Err_0.is_command_execute(response@.display()),
            },
    {
        match response {
            Frame::Simple(value) => Ok(bulk_of(value.as_str())),
            Frame::Bulk(value) => Ok(value),
            frame => Err(MiniRedisConnectionError::CommandExecute(frame.to_string())),
        }
    }

    /// The answer to `GET`: the value of the key, or nothing where it holds
    /// none.
    pub fn get_response(response: Frame) -> (r: Result<Option<Bytes>, MiniRedisConnectionError>)
        ensures
            match response@ {
                FrameView::Simple(value) => r matches Ok(Some(got)) && contents(got)
                    == encode_utf8(value),
                FrameView::Bulk(value) => r matches Ok(Some(got)) && contents(got) == value,
                FrameView::Null => r matches Ok(None),
                _ => r is Err && r->Err_0.is_command_execute(response@.display()),
            },
    {
        // Both `Simple` and `Bulk` frames are accepted. `Null` represents the
        // key not being present and `None` is returned.
        match response {
            Frame::Simple(value) => Ok(Some(bulk_of(value.as_str()))),
            Frame::Bulk(value) => Ok(Some(value)),
            Frame::Null => Ok(None),
            frame => Err(MiniRedisConnectionError::CommandExecute(frame.to_string())),
        }
    }

    /// The answer to `SET`: on success, the server responds simply with
    /// `OK`. Any other response indicates an error.
    pub fn set_response(response: Frame) -> (r: Result<(), MiniRedisConnectionError>)
        ensures
            match response@ {
                FrameView::Simple(text) if text == "OK"@ => r is Ok,
                _ => r is Err && r->Err_0.is_command_execute(response@.display()),
            },
    {
        match response {
            Frame::Simple(text) => {
                if str_eq(text.as_str(), "OK") {
                    Ok(())
                } else {
                    Err(
                        MiniRedisConnectionError::CommandExecute(Frame::Simple(text).to_string()),
                    )
                }
            },
            frame => Err(MiniRedisConnectionError::CommandExecute(frame.to_string())),
        }
    }

    /// The answer to `PUBLISH`: the number of subscribers that were
    /// listening on the channel.
    pub fn publish_response(response: Frame) -> (r: Result<u64, MiniRedisConnectionError>)
        ensures
            match response@ {
                FrameView::Integer(n) => r == Ok::<u64, MiniRedisConnectionError>(n),
                _ => r is Err && r->Err_0.is_command_execute(response@.display()),
            },
    {
        match response {
            Frame::Integer(response) => Ok(response),
            frame => Err(MiniRedisConnectionError::CommandExecute(frame.to_string())),
        }
    }

    /// Whether `response` confirms the subscription to `channel`.
    pub open spec fn confirms(response: FrameView, channel: Seq<char>) -> bool {
        response matches FrameView::Array(parts) && parts.len() >= 2 && parts[0].is_text(
            "subscribe"@,
        ) && parts[1].is_text(channel)
    }

    /// Verifies that `response` is the confirmation of the subscription to
    /// `channel`.
    ///
    /// The server responds with an array frame in the form of:
    ///
    /// ```text
    /// [ "subscribe", channel, num-subscribed ]
    /// ```
    ///
    /// where channel is the name of the channel and num-subscribed is the
    /// number of channels that the client is currently subscribed to.
    pub fn subscribe_response(channel: &str, response: &Frame) -> (r: Result<
        (),
        MiniRedisConnectionError,
    >)
        ensures
            Client::confirms(response@, channel@) ==> r is Ok,
            !Client::confirms(response@, channel@) ==> r is Err && (match response@ {
                FrameView::Array(_) => r->Err_0.is_command_execute(response@.display()),
                _ => r->Err_0 is InvalidFrameType,
            }),
    {
        match response {
            Frame::Array(parts) => {
                proof {
                    crate::connection::frame::lemma_array_view(*parts);
                }
                if parts.len() >= 2 && parts[0].eq_str("subscribe") && parts[1].eq_str(channel) {
                    Ok(())
                } else {
                    Err(MiniRedisConnectionError::CommandExecute(response.to_string()))
                }
            },
            _ => Err(MiniRedisConnectionError::InvalidFrameType),
        }
    }

    /// Turns the client into a subscriber of `channels`, once the server has
    /// confirmed each of them.
    ///
    /// Once a client issues a subscribe command, it may no longer issue any
    /// non-pub/sub commands.
    pub fn subscribe(self, channels: Vec<String>) -> (subscriber: Subscriber)
        ensures
            subscriber.client.connection@ == self.connection@,
            subscriber.subscribed_channels@ == channels@,
    {
        Subscriber { client: self, subscribed_channels: channels }
    }
}

} // verus!
