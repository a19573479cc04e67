//! The synchronisation client: connection state and the reconnection
//! policy.
//!
//! The WebSocket loop itself runs outside the library; it asks the
//! policy here what to do after each connection ends and with each
//! message.

use vstd::prelude::*;
use vstd::string::StringExecFns;

verus! {

broadcast use vstd::string::group_string_axioms;

/// What the client reports to the application.
#[derive(Debug, Clone)]
pub enum SyncEvent {
    Connected,
    Disconnected,
    DeltaReceived { data: Vec<u8> },
    Error { message: String },
}

/// The most reconnection attempts after failures in a row.
pub const MAX_RETRIES: u32 = 10;

/// The wait before reconnection attempt `retry` (counting from 1), in
/// seconds: `2^min(retry, 6)`.
pub open spec fn backoff_secs(retry: u32) -> u64 {
    if retry >= 6 {
        64
    } else if retry == 5 {
        32
    } else if retry == 4 {
        16
    } else if retry == 3 {
        8
    } else if retry == 2 {
        4
    } else if retry == 1 {
        2
    } else {
        1
    }
}

/// The waits between reconnection attempts never shrink as failures
/// accumulate, and never exceed 64 seconds.
pub proof fn lemma_backoff_grows(a: u32, b: u32)
    requires
        a <= b,
    ensures
        backoff_secs(a) <= backoff_secs(b) <= 64,
{
}

/// A message received on the socket, by kind.
pub enum Incoming {
    Binary(Vec<u8>),
    Close,
    Ended,
    Failed,
    Other,
}

/// What to do with a received message.
pub enum MessageAction {
    /// Pass the delta on to the application.
    Forward(SyncEvent),
    /// The connection is over.
    Disconnect,
    /// Nothing to do.
    Ignore,
}

/// The synchronisation client.
pub struct SyncClient {
    server_url: String,
    auth_token: String,
    is_connected: bool,
    retry_count: u32,
}

impl SyncClient {
    pub closed spec fn url(&self) -> Seq<char> {
        self.server_url@
    }

    pub closed spec fn token(&self) -> Seq<char> {
        self.auth_token@
    }

    pub closed spec fn connected(&self) -> bool {
        self.is_connected
    }

    /// The reconnection attempts made since the last successful connection.
    pub closed spec fn retries(&self) -> u32 {
        self.retry_count
    }

    pub fn new(server_url: &str, auth_token: &str) -> (c: Self)
        ensures
            c.url() == server_url@,
            c.token() == auth_token@,
            !c.connected(),
            c.retries() == 0,
    {
        SyncClient {
            server_url: String::from_str(server_url),
            auth_token: String::from_str(auth_token),
            is_connected: false,
            retry_count: 0,
        }
    }

    pub fn is_connected(&self) -> (b: bool)
        ensures
            b == self.connected(),
    {
        self.is_connected
    }

    /// The WebSocket address to connect to.
    pub fn connect_url(&self) -> (u: String)
        ensures
            u@ == self.url() + "/api/v1/sync/connect?token="@ + self.token(),
    {
        let mut u = self.server_url.clone();
        u.append("/api/v1/sync/connect?token=");
        u.append(self.auth_token.as_str());
        u
    }

    /// A connect run begins: the count of failed attempts starts from zero,
    /// so every run makes up to `MAX_RETRIES + 1` attempts before it gives up.
    pub fn begin_run(&mut self)
        ensures
            final(self).retries() == 0,
            final(self).connected() == old(self).connected(),
            final(self).url() == old(self).url(),
            final(self).token() == old(self).token(),
    {
        self.retry_count = 0;
    }

    /// A connection was established: the failure count starts over.
    pub fn on_connected(&mut self) -> (e: SyncEvent)
        ensures
            final(self).connected(),
            final(self).retries() == 0,
            final(self).url() == old(self).url(),
            final(self).token() == old(self).token(),
            e is Connected,
    {
        self.is_connected = true;
        self.retry_count = 0;
        SyncEvent::Connected
    }

    /// A connection ended or could not be made.  Returns the wait before
    /// the next attempt in seconds, or `None` when the client gives up
    /// (more than `MAX_RETRIES` attempts in a row).
    pub fn on_disconnected(&mut self) -> (wait: Option<u64>)
        ensures
            !final(self).connected(),
            final(self).url() == old(self).url(),
            final(self).token() == old(self).token(),
            old(self).retries() < u32::MAX ==> final(self).retries() == old(self).retries() + 1,
            old(self).retries() == u32::MAX ==> final(self).retries() == u32::MAX,
            wait is None <==> final(self).retries() > MAX_RETRIES,
            wait matches Some(s) ==> s == backoff_secs(final(self).retries()),
    {
        self.is_connected = false;
        if self.retry_count < u32::MAX {
            self.retry_count = self.retry_count + 1;
        }
        if self.retry_count > MAX_RETRIES {
            return None;
        }
        let r = if self.retry_count < 6 { self.retry_count } else { 6 };
        let mut secs: u64 = 1;
        let mut k: u32 = 0;
        while k < r
            invariant
                k <= r <= 6,
                secs == backoff_secs(k),
            decreases r - k,
        {
            secs = secs * 2;
            k += 1;
        }
        Some(secs)
    }

    /// Sends a sealed delta; refused when not connected.
    pub fn send_delta(&self, _encrypted_data: Vec<u8>) -> (r: Result<(), String>)
        ensures
            !self.connected() ==> (r matches Err(m) && m@ == "Not connected"@),
            self.connected() ==> r is Ok,
    {
        if !self.is_connected {
            return Err(String::from_str("Not connected"));
        }
        Ok(())
    }
}

/// What to do with a received message: binary messages carry deltas;
/// a close, the end of the stream or a receive error end the connection;
/// anything else (ping, pong, text) is left to the socket library.
pub fn on_message(msg: Incoming) -> (a: MessageAction)
    ensures
        msg is Binary ==> (a matches MessageAction::Forward(SyncEvent::DeltaReceived { data }) && data
            == msg->Binary_0),
        (msg is Close || msg is Ended || msg is Failed) ==> a is Disconnect,
        msg is Other ==> a is Ignore,
{
    match msg {
        Incoming::Binary(data) => MessageAction::Forward(SyncEvent::DeltaReceived { data }),
        Incoming::Close => MessageAction::Disconnect,
        Incoming::Ended => MessageAction::Disconnect,
        Incoming::Failed => MessageAction::Disconnect,
        Incoming::Other => MessageAction::Ignore,
    }
}

} // verus!
