//! Lifecycle of the streaming server: whether it runs, where it listens,
//! the streams it serves, and the URLs it hands out.
use vstd::prelude::*;
use crate::registry::{next_stamp, StreamingState};
use crate::text::{decimal, hex, push_decimal};

verus! {

/// Failures of the streaming server.
pub enum StreamError {
    AlreadyRunning,
    NotRunning,
    StartError(String),
    FileNotFound(String),
    IoError(String),
}

/// What a created stream is reachable at.
pub struct StreamInfo {
    pub stream_id: String,
    pub stream_url: String,
    pub server_url: String,
}

/// `http://<ip>:<port>`
pub open spec fn server_url_text(ip: Seq<char>, port: u16) -> Seq<char> {
    "http://"@ + ip + ":"@ + decimal(port as nat)
}

/// `<base>/stream/<id>`, then `/<filename>` where a file name is given.
pub open spec fn stream_url_text(base: Seq<char>, id: Seq<char>, filename: Option<Seq<char>>) -> Seq<
    char,
> {
    match filename {
        Some(f) => base + "/stream/"@ + id + "/"@ + f,
        None => base + "/stream/"@ + id,
    }
}

/// A path separator: `/`, and on Windows also `\`.
pub open spec fn is_sep(c: char, windows: bool) -> bool {
    c == '/' || (windows && c == '\\')
}

/// `end` with the trailing separators before it dropped.
pub open spec fn trim_seps(p: Seq<char>, windows: bool, end: int) -> int
    decreases end,
{
    if end > 0 && is_sep(p[end - 1], windows) {
        trim_seps(p, windows, end - 1)
    } else {
        end
    }
}

/// Index of the last separator before `end`, or -1.
pub open spec fn last_sep(p: Seq<char>, windows: bool, end: int) -> int
    decreases end,
{
    if end <= 0 {
        -1
    } else if is_sep(p[end - 1], windows) {
        end - 1
    } else {
        last_sep(p, windows, end - 1)
    }
}

/// The final segment of a path, after its trailing separators are dropped.
pub open spec fn file_name_of(p: Seq<char>, windows: bool) -> Seq<char> {
    let e = trim_seps(p, windows, p.len() as int);
    p.subrange(last_sep(p, windows, e) + 1, e)
}

/// The name shown at the end of a stream URL: the path's final segment, or
/// `video.mp4` where it has none (it is empty, or `..`).
pub open spec fn url_file_name(p: Seq<char>, windows: bool) -> Seq<char> {
    let name = file_name_of(p, windows);
    if name.len() == 0 || name == ".."@ {
        "video.mp4"@
    } else {
        name
    }
}

/// Where the address lookup failed, the server reports the loopback one.
pub open spec fn reported_ip(found: Option<Seq<char>>) -> Seq<char> {
    match found {
        Some(ip) => ip,
        None => "127.0.0.1"@,
    }
}

/// The streaming server's state. While it does not run it listens nowhere
/// and serves no stream.
pub struct StreamingServer {
    registry: StreamingState,
    running: bool,
    port: u16,
    local_ip: Option<String>,
}

impl StreamingServer {
    pub closed spec fn running(&self) -> bool {
        self.running
    }

    pub closed spec fn port(&self) -> u16 {
        self.port
    }

    pub closed spec fn local_ip(&self) -> Option<Seq<char>> {
        match self.local_ip {
            Some(ip) => Some(ip@),
            None => None,
        }
    }

    /// The registered streams, by id.
    pub closed spec fn streams(&self) -> Map<Seq<char>, Seq<char>> {
        self.registry@
    }

    pub closed spec fn last_stamp(&self) -> u64 {
        self.registry.last_stamp()
    }

    pub closed spec fn wf(&self) -> bool {
        &&& self.registry.wf()
        &&& self.running ==> self.local_ip is Some
        &&& !self.running ==> {
            &&& self.registry@ == Map::<Seq<char>, Seq<char>>::empty()
            &&& self.port == 0
            &&& self.local_ip is None
        }
    }

    pub fn new() -> (r: StreamingServer)
        ensures
            r.wf(),
            !r.running(),
            r.port() == 0,
            r.local_ip() is None,
            r.streams() == Map::<Seq<char>, Seq<char>>::empty(),
    {
        StreamingServer { registry: StreamingState::new(), running: false, port: 0, local_ip: None }
    }

    /// Records that the listener is bound at `bound_port`, on a host whose
    /// network address lookup gave `found_ip`; returns the address and port
    /// reported. Fails where the server already runs.
    pub fn start(&mut self, found_ip: Option<String>, bound_port: u16) -> (r: Result<
        (String, u16),
        StreamError,
    >)
        requires
            old(self).wf(),
        ensures
            final(self).wf(),
            old(self).running() ==> (r matches Err(StreamError::AlreadyRunning) && *final(self)
                == *old(self)),
            !old(self).running() ==> (r matches Ok((ip, port)) && {
                &&& ip@ == reported_ip(
                    match found_ip {
                        Some(f) => Some(f@),
                        None => None,
                    },
                )
                &&& port == bound_port
                &&& final(self).running()
                &&& final(self).port() == bound_port
                &&& final(self).local_ip() == Some(ip@)
                &&& final(self).streams() == old(self).streams()
            }),
    {
        if self.running {
            return Err(StreamError::AlreadyRunning);
        }
        let ip = match found_ip {
            Some(f) => f,
            None => String::from_str("127.0.0.1"),
        };
        self.running = true;
        self.port = bound_port;
        self.local_ip = Some(ip.clone());
        Ok((ip, bound_port))
    }

    /// Stops serving: the streams are dropped and the address forgotten.
    /// Nothing happens where the server does not run.
    pub fn stop(&mut self)
        requires
            old(self).wf(),
        ensures
            final(self).wf(),
            !final(self).running(),
            final(self).port() == 0,
            final(self).local_ip() is None,
            final(self).streams() == Map::<Seq<char>, Seq<char>>::empty(),
    {
        if self.running {
            self.registry.clear_streams();
            self.running = false;
            self.port = 0;
            self.local_ip = None;
        }
    }

    pub fn is_running(&self) -> (r: bool)
        ensures
            r == self.running(),
    {
        self.running
    }

    /// `http://<ip>:<port>`, where both an address and a port are recorded.
    pub fn get_url(&self) -> (r: Option<String>)
        ensures
            match (self.local_ip(), r) {
                (Some(ip), Some(u)) => self.port() > 0 && u@ == server_url_text(ip, self.port()),
                (Some(ip), None) => self.port() == 0,
                (None, r) => r is None,
            },
    {
        match &self.local_ip {
            Some(ip) => {
                if self.port > 0 {
                    proof {
                        reveal_strlit("http://");
                        reveal_strlit(":");
                    }
                    let mut u = String::from_str("http://");
                    u.append(ip.as_str());
                    u.append(":");
                    push_decimal(&mut u, self.port as u64);
                    assert(u@ =~= server_url_text(ip@, self.port));
                    Some(u)
                } else {
                    None
                }
            },
            None => None,
        }
    }

    /// The URL of stream `stream_id`, with `filename` after it where given;
    /// `None` where the server has no URL.
    pub fn get_stream_url(&self, stream_id: &str, filename: Option<&str>) -> (r: Option<String>)
        ensures
            match (self.local_ip(), r) {
                (Some(ip), Some(u)) => self.port() > 0 && u@ == stream_url_text(
                    server_url_text(ip, self.port()),
                    stream_id@,
                    match filename {
                        Some(f) => Some(f@),
                        None => None,
                    },
                ),
                (Some(ip), None) => self.port() == 0,
                (None, r) => r is None,
            },
    {
        match self.get_url() {
            Some(base) => {
                proof {
                    reveal_strlit("/stream/");
                    reveal_strlit("/");
                }
                let mut u = base;
                u.append("/stream/");
                u.append(stream_id);
                match filename {
                    Some(f) => {
                        u.append("/");
                        u.append(f);
                    },
                    None => {},
                }
                Some(u)
            },
            None => None,
        }
    }

    /// Registers the file at `path` with clock reading `stamp`. Only a
    /// running server takes streams.
    pub fn register_stream(&mut self, path: String, stamp: u64) -> (r: Result<String, StreamError>)
        requires
            old(self).wf(),
        ensures
            final(self).wf(),
            final(self).running() == old(self).running(),
            final(self).port() == old(self).port(),
            final(self).local_ip() == old(self).local_ip(),
            !old(self).running() ==> (r matches Err(StreamError::NotRunning) && final(self).streams()
                == old(self).streams()),
            old(self).running() ==> match r {
                Ok(id) => {
                    &&& !old(self).streams().contains_key(id@)
                    &&& final(self).streams() == old(self).streams().insert(id@, path@)
                    &&& id@ == hex(next_stamp(old(self).last_stamp(), stamp) as nat)
                },
                Err(e) => {
                    &&& e is IoError
                    &&& stamp <= old(self).last_stamp() == u64::MAX
                    &&& final(self).streams() == old(self).streams()
                },
            },
    {
        if !self.running {
            return Err(StreamError::NotRunning);
        }
        match self.registry.register_stream(path, stamp) {
            Some(id) => Ok(id),
            None => Err(StreamError::IoError(String::from_str("no stream id is left"))),
        }
    }

    /// The file served under `id`, if any.
    pub fn get_stream_path(&self, id: &str) -> (r: Option<String>)
        requires
            self.wf(),
        ensures
            match r {
                Some(p) => self.streams().contains_key(id@) && p@ == self.streams()[id@],
                None => !self.streams().contains_key(id@),
            },
    {
        self.registry.get_stream_path(id)
    }

    /// Stops serving stream `id`.
    pub fn remove_stream(&mut self, id: &str)
        requires
            old(self).wf(),
        ensures
            final(self).wf(),
            final(self).running() == old(self).running(),
            final(self).port() == old(self).port(),
            final(self).local_ip() == old(self).local_ip(),
            final(self).streams() == old(self).streams().remove(id@),
    {
        self.registry.remove_stream(id);
        assert(!self.running ==> self.registry@ =~= Map::<Seq<char>, Seq<char>>::empty());
    }

    /// Registers the file at `file_path` and returns its id and URLs; the
    /// stream URL ends with the path's file name. `file_exists` says
    /// whether the path names an existing file; `windows` whether `\`
    /// separates its segments too. Fails where the server does not run or
    /// has no URL, or where the file does not exist.
    pub fn create_stream(
        &mut self,
        file_path: String,
        file_exists: bool,
        windows: bool,
        stamp: u64,
    ) -> (r: Result<
        StreamInfo,
        StreamError,
    >)
        requires
            old(self).wf(),
        ensures
            final(self).wf(),
            final(self).running() == old(self).running(),
            final(self).port() == old(self).port(),
            final(self).local_ip() == old(self).local_ip(),
            !old(self).running() ==> (r matches Err(StreamError::NotRunning)),
            old(self).running() && old(self).port() == 0 ==> (r matches Err(StreamError::StartError(_))),
            old(self).running() && old(self).port() > 0 && !file_exists ==> (r matches Err(
                StreamError::FileNotFound(p),
            ) && p@ == file_path@),
            r is Err ==> final(self).streams() == old(self).streams(),
            old(self).running() && old(self).port() > 0 && file_exists ==> match r {
                Ok(info) => {
                    let base = server_url_text(old(self).local_ip()->Some_0, old(self).port());
                    &&& !old(self).streams().contains_key(info.stream_id@)
                    &&& final(self).streams() == old(self).streams().insert(
                        info.stream_id@,
                        file_path@,
                    )
                    &&& info.stream_id@ == hex(next_stamp(old(self).last_stamp(), stamp) as nat)
                    &&& info.server_url@ == base
                    &&& info.stream_url@ == stream_url_text(
                        base,
                        info.stream_id@,
                        Some(url_file_name(file_path@, windows)),
                    )
                },
                Err(e) => e is IoError && stamp <= old(self).last_stamp() == u64::MAX,
            },
    {
        if !self.running {
            return Err(StreamError::NotRunning);
        }
        let server_url = match self.get_url() {
            Some(u) => u,
            None => {
                return Err(StreamError::StartError(String::from_str("the server has no address")));
            },
        };
        if !file_exists {
            return Err(StreamError::FileNotFound(file_path));
        }
        let name = file_name(file_path.as_str(), windows);
        let stream_id = match self.register_stream(file_path, stamp) {
            Ok(id) => id,
            Err(e) => {
                return Err(e);
            },
        };
        let stream_url = match self.get_stream_url(stream_id.as_str(), Some(name.as_str())) {
            Some(u) => u,
            None => {
                return Err(StreamError::StartError(String::from_str("the server has no address")));
            },
        };
        Ok(StreamInfo { stream_id, stream_url, server_url })
    }
}

proof fn lemma_last_sep_bounds(p: Seq<char>, windows: bool, end: int)
    ensures
        -1 <= last_sep(p, windows, end) < (if end > 0 { end } else { 0 }),
    decreases end,
{
    if end > 0 {
        lemma_last_sep_bounds(p, windows, end - 1);
    }
}

fn is_sep_exec(c: char, windows: bool) -> (r: bool)
    ensures
        r == is_sep(c, windows),
{
    c == '/' || (windows && c == '\\')
}

/// The name at the end of a stream URL for the file at `path`; `windows`
/// says whether `\` separates segments too.
pub fn file_name(path: &str, windows: bool) -> (r: String)
    ensures
        r@ == url_file_name(path@, windows),
{
    let n = path.unicode_len();
    let mut e = n;
    while e > 0 && is_sep_exec(path.get_char(e - 1), windows)
        invariant
            e <= n == path@.len(),
            trim_seps(path@, windows, n as int) == trim_seps(path@, windows, e as int),
        decreases e,
    {
        e = e - 1;
    }
    let mut i = e;
    while i > 0 && !is_sep_exec(path.get_char(i - 1), windows)
        invariant
            i <= e <= path@.len(),
            last_sep(path@, windows, e as int) == last_sep(path@, windows, i as int),
        decreases i,
    {
        i = i - 1;
    }
    proof {
        lemma_last_sep_bounds(path@, windows, e as int);
    }
    // `i` is one past the last separator, or 0
    let name = path.substring_char(i, e).to_owned();
    if i == e || crate::text::same_text(&name, "..") {
        return String::from_str("video.mp4");
    }
    name
}

impl Default for StreamingServer {
    fn default() -> (r: StreamingServer)
        ensures
            r.wf(),
            !r.running(),
            r.port() == 0,
            r.local_ip() is None,
            r.streams() == Map::<Seq<char>, Seq<char>>::empty(),
    {
        StreamingServer::new()
    }
}

} // verus!
