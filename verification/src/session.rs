//! One SSH session as the dashboard sees it.
use vstd::prelude::*;

verus! {

/// How many lines a session's screen keeps above its visible ones.
pub const SCROLLBACK_LINES: usize = 200;

/// Where a session stands.
#[derive(Debug)]
pub enum SessionState {
    /// Not connected yet.
    Idle,
    /// A connection is being made or is open.
    Active,
    /// The connection was lost, for this reason.
    Disconnected(String),
}

/// Declares the terminal emulator of `vt100`.
#[verifier::external_type_specification]
#[verifier::external_body]
pub struct ExParser(vt100::Parser);

/// The terminal that `vt100::Parser::new` makes.
pub uninterp spec fn blank_screen(rows: u16, cols: u16, scrollback_len: usize) -> vt100::Parser;

/// Specifies `vt100::Parser::new`: the terminal is a function of its size and its scrollback
/// length alone. The call computes the bottom row as `rows - 1`, so there has to be a row. What a
/// blank terminal shows is not stated.
pub assume_specification[ vt100::Parser::new ](
    rows: u16,
    cols: u16,
    scrollback_len: usize,
) -> (screen: vt100::Parser)
    requires
        rows >= 1,
    ensures
        screen == blank_screen(rows, cols, scrollback_len),
;

/// The data of one session: `H` says which host it is for, and `T` is the sending end of the
/// channel on which the connection takes its input.
pub struct SessionData<H, T> {
    pub host: H,
    pub state: SessionState,
    pub screen: vt100::Parser,
    /// There is a channel only while there is a connection.
    pub input_tx: Option<T>,
}

impl<H, T> SessionData<H, T> {
    /// A session that has not been connected yet, with a blank screen of the given size.
    pub open spec fn fresh(host: H, cols: u16, rows: u16) -> SessionData<H, T> {
        SessionData {
            host,
            state: SessionState::Idle,
            screen: blank_screen(rows, cols, SCROLLBACK_LINES),
            input_tx: None,
        }
    }

    /// A session for `host` that has not been connected yet.
    pub fn new(host: H, cols: u16, rows: u16) -> (data: Self)
        requires
            rows >= 1,
        ensures
            data == Self::fresh(host, cols, rows),
    {
        SessionData {
            host,
            state: SessionState::Idle,
            screen: vt100::Parser::new(rows, cols, SCROLLBACK_LINES),
            input_tx: None,
        }
    }

    /// If the session is disconnected, resets it so that it can be connected again, and says so.
    pub fn reset_if_disconnected(&mut self, cols: u16, rows: u16) -> (reset: bool)
        requires
            old(self).state is Disconnected ==> rows >= 1,
        ensures
            reset == old(self).state is Disconnected,
            *final(self) == if reset {
                Self::fresh(old(self).host, cols, rows)
            } else {
                *old(self)
            },
    {
        let lost = match &self.state {
            SessionState::Disconnected(_) => true,
            _ => false,
        };
        if lost {
            self.state = SessionState::Idle;
            self.screen = vt100::Parser::new(rows, cols, SCROLLBACK_LINES);
            self.input_tx = None;
        }
        lost
    }

    /// What is to be sent on which channel to hand `bytes` to the session; nothing while it has
    /// no channel.
    pub fn outgoing(&self, bytes: Vec<u8>) -> (sending: Option<(&T, Vec<u8>)>)
        ensures
            match (sending, self.input_tx) {
                (Some((tx, sent)), Some(channel)) => *tx == channel && sent == bytes,
                (None, None) => true,
                _ => false,
            },
    {
        match &self.input_tx {
            Some(tx) => Some((tx, bytes)),
            None => None,
        }
    }
}

/// A fresh session is for its host, not connected, without a channel, and has a blank screen of its
/// size that keeps 200 lines.
pub proof fn law_fresh_session_is_idle<H, T>(host: H, cols: u16, rows: u16)
    ensures
        SessionData::<H, T>::fresh(host, cols, rows).host == host,
        SessionData::<H, T>::fresh(host, cols, rows).state is Idle,
        SessionData::<H, T>::fresh(host, cols, rows).input_tx is None,
        SessionData::<H, T>::fresh(host, cols, rows).screen == blank_screen(rows, cols, 200),
{
}

} // verus!
