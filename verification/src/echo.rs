//! The decisions of the echo service: each connection is read into a
//! 512-byte buffer, and what arrives is echoed back, for at most 1000 reads;
//! an empty read ends the session.
use vstd::prelude::*;

verus! {

/// The size of the read buffer.
pub const BUF_LEN: usize = 512;

/// The number of reads a session serves at most.
pub const MAX_ROUNDS: u32 = 1000;

/// What the service does next on a connection.
#[derive(Clone, Copy, PartialEq, Eq, Debug, Structural)]
pub enum EchoAction {
    /// Read into the buffer.
    Read,
    /// Print the first `n` bytes of the buffer as text, write them back to
    /// the client, then pause for a second.
    Echo(usize),
    /// End the session.
    Close,
}

/// One connection's progress: how many reads have been echoed.
#[derive(Clone, Copy, PartialEq, Eq, Debug, Structural)]
pub struct EchoSession {
    pub rounds: u32,
}

impl EchoSession {
    /// A fresh session.
    pub fn new() -> (r: Self)
        ensures
            r.rounds == 0,
    {
        EchoSession { rounds: 0 }
    }

    /// What to do before the next read: read while fewer than `MAX_ROUNDS`
    /// reads were echoed, else close.
    pub fn next_action(&self) -> (r: EchoAction)
        ensures
            self.rounds < MAX_ROUNDS ==> r == EchoAction::Read,
            self.rounds >= MAX_ROUNDS ==> r == EchoAction::Close,
    {
        if self.rounds < MAX_ROUNDS {
            EchoAction::Read
        } else {
            EchoAction::Close
        }
    }

    /// What to do with a read of `bytes_read` bytes: close on an empty read,
    /// else echo them, counting the round.
    pub fn on_read(&mut self, bytes_read: usize) -> (r: EchoAction)
        requires
            old(self).rounds < MAX_ROUNDS,
            bytes_read <= BUF_LEN,
        ensures
            bytes_read == 0 ==> r == EchoAction::Close && *final(self) == *old(self),
            bytes_read > 0 ==> r == EchoAction::Echo(bytes_read) && final(self).rounds == old(
                self,
            ).rounds + 1,
    {
        if bytes_read == 0 {
            return EchoAction::Close;
        }
        self.rounds = self.rounds + 1;
        EchoAction::Echo(bytes_read)
    }
}

} // verus!
