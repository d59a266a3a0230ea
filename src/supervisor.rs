//! Decisions of the player process supervisor: the endpoint it opens, the
//! arguments it starts the player with, and how long it tries to connect.
use vstd::prelude::*;
use crate::protocol::MpvIpcError;
use crate::text::{decimal, push_decimal};

verus! {

/// Connection attempts before giving up.
pub const MAX_CONNECT_ATTEMPTS: u32 = 50;

/// Pause between two connection attempts, in milliseconds.
pub const CONNECT_DELAY_MS: u64 = 100;

/// The transport endpoint of the player started by process `pid`: a named
/// pipe on Windows, a socket under `/tmp` elsewhere.
pub open spec fn pipe_name_text(pid: u32, windows: bool) -> Seq<char> {
    if windows {
        "\\\\.\\pipe\\hubremote-mpv-"@ + decimal(pid as nat)
    } else {
        "/tmp/hubremote-mpv-"@ + decimal(pid as nat) + ".sock"@
    }
}

pub fn get_pipe_name(pid: u32, windows: bool) -> (r: String)
    ensures
        r@ == pipe_name_text(pid, windows),
{
    if windows {
        proof { reveal_strlit("\\\\.\\pipe\\hubremote-mpv-"); }
        let mut s = String::from_str("\\\\.\\pipe\\hubremote-mpv-");
        push_decimal(&mut s, pid as u64);
        s
    } else {
        proof {
            reveal_strlit("/tmp/hubremote-mpv-");
            reveal_strlit(".sock");
        }
        let mut s = String::from_str("/tmp/hubremote-mpv-");
        push_decimal(&mut s, pid as u64);
        s.append(".sock");
        s
    }
}

/// The arguments the player is started with: idle, serving the control
/// protocol at `pipe`, with hardware decoding where safe, a cache, and
/// full screen with on-screen controls.
pub open spec fn player_args_text(pipe: Seq<char>) -> Seq<Seq<char>> {
    seq![
        "--idle=yes"@,
        "--input-ipc-server="@ + pipe,
        "--vo=gpu"@,
        "--hwdec=auto-safe"@,
        "--keep-open=yes"@,
        "--cache=yes"@,
        "--demuxer-max-bytes=150MiB"@,
        "--demuxer-max-back-bytes=75MiB"@,
        "--fullscreen=yes"@,
        "--osc=yes"@,
        "--title=HubRemote Player"@,
    ]
}

pub fn player_args(pipe: &str) -> (r: Vec<String>)
    ensures
        r@.len() == 11,
        forall|i: int| 0 <= i < 11 ==> #[trigger] r@[i]@ == player_args_text(pipe@)[i],
{
    let mut server = String::from_str("--input-ipc-server=");
    server.append(pipe);
    let r = vec![
        String::from_str("--idle=yes"),
        server,
        String::from_str("--vo=gpu"),
        String::from_str("--hwdec=auto-safe"),
        String::from_str("--keep-open=yes"),
        String::from_str("--cache=yes"),
        String::from_str("--demuxer-max-bytes=150MiB"),
        String::from_str("--demuxer-max-back-bytes=75MiB"),
        String::from_str("--fullscreen=yes"),
        String::from_str("--osc=yes"),
        String::from_str("--title=HubRemote Player"),
    ];
    r
}

/// What to do after a failed connection attempt.
pub enum RetryStep {
    /// Wait this many milliseconds, then try again.
    WaitMs(u64),
    GiveUp(MpvIpcError),
}

/// Counts failed attempts to connect to the player's endpoint.
pub struct ConnectRetry {
    pub failures: u32,
}

impl ConnectRetry {
    pub fn new() -> (r: ConnectRetry)
        ensures
            r.failures == 0,
    {
        ConnectRetry { failures: 0 }
    }

    /// Records a failed attempt: wait and try again, or, after the last of
    /// `MAX_CONNECT_ATTEMPTS` attempts, give up with a connection error.
    pub fn on_failure(&mut self) -> (step: RetryStep)
        requires
            old(self).failures < MAX_CONNECT_ATTEMPTS,
        ensures
            final(self).failures == old(self).failures + 1,
            final(self).failures < MAX_CONNECT_ATTEMPTS ==> step matches RetryStep::WaitMs(
                CONNECT_DELAY_MS,
            ),
            final(self).failures == MAX_CONNECT_ATTEMPTS ==> (step matches RetryStep::GiveUp(
                MpvIpcError::ConnectionError(m),
            ) && m@ == "Timeout waiting for mpv IPC socket"@),
    {
        self.failures = self.failures + 1;
        if self.failures < MAX_CONNECT_ATTEMPTS {
            RetryStep::WaitMs(CONNECT_DELAY_MS)
        } else {
            RetryStep::GiveUp(
                MpvIpcError::ConnectionError(String::from_str("Timeout waiting for mpv IPC socket")),
            )
        }
    }
}

} // verus!
