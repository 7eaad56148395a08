//! A small HTTP proxy gateway reached over two framed transports that share
//! one port.
//!
//! Clients send `GET:<url>`; the gateway fetches the URL and sends back the
//! body, or an error page for another status.
//!
//! - The stream transport carries frames behind a four-byte big-endian length
//!   ([`tcp_headers`], [`stream_frame`]); each connection greets, asks for one
//!   URL and says goodbye ([`stream_session`]).
//! - The datagram transport answers with batches of at most
//!   [`udp_dispatch::BUFFER_SIZE`] bytes, each behind its index and the batch
//!   count ([`udp_headers`], [`batch_creator`]). Sent batches are kept for five
//!   minutes ([`batches_cache`]) so that a client can ask for one again
//!   ([`batch_repeat`]). [`udp_dispatch`] decides what a request gets, and
//!   [`udp_pump`] what the socket task does with received datagrams and idle
//!   loops.
//!
//! Sockets, queues, locks, timers and the HTTP client are left to the caller:
//! the functions here take what those produced as plain values and say what
//! to do next.
pub mod batch_creator;
pub mod batch_repeat;
pub mod batches_cache;
pub mod proxy_logic;
pub mod stream_frame;
pub mod stream_session;
pub mod tcp_headers;
pub mod text;
pub mod udp_dispatch;
pub mod udp_headers;
pub mod udp_pump;
pub mod wire;
