//! Mounting a cloud remote with rclone: the configuration, the commands it
//! runs, and how its state is read back.
use vstd::prelude::*;
use crate::text::{decimal, push_decimal};

verus! {

/// How a remote is mounted.
pub struct RcloneConfig {
    pub rclone_path: String,
    pub remote_name: String,
    pub remote_folder: String,
    pub mount_point: String,
    pub vfs_cache_mode: String,
    pub auto_mount: bool,
}

impl Default for RcloneConfig {
    /// `rclone` mounting `gdrive:Media Hub` at `G:` with a full cache, on
    /// start.
    fn default() -> (r: RcloneConfig)
        ensures
            r.rclone_path@ == "rclone"@,
            r.remote_name@ == "gdrive"@,
            r.remote_folder@ == "Media Hub"@,
            r.mount_point@ == "G:"@,
            r.vfs_cache_mode@ == "full"@,
            r.auto_mount,
    {
        RcloneConfig {
            rclone_path: String::from_str("rclone"),
            remote_name: String::from_str("gdrive"),
            remote_folder: String::from_str("Media Hub"),
            mount_point: String::from_str("G:"),
            vfs_cache_mode: String::from_str("full"),
            auto_mount: true,
        }
    }
}

/// Whether a remote is mounted, and where.
pub struct MountStatus {
    pub is_mounted: bool,
    pub mount_point: String,
    pub remote_name: String,
    pub remote_folder: String,
    pub error: Option<String>,
}

/// The status of `config`'s mount, given whether its mount point is
/// mounted.
pub fn get_mount_status(config: &RcloneConfig, is_mounted: bool) -> (r: MountStatus)
    ensures
        r.is_mounted == is_mounted,
        r.mount_point@ == config.mount_point@,
        r.remote_name@ == config.remote_name@,
        r.remote_folder@ == config.remote_folder@,
        r.error is None,
{
    MountStatus {
        is_mounted,
        mount_point: config.mount_point.clone(),
        remote_name: config.remote_name.clone(),
        remote_folder: config.remote_folder.clone(),
        error: None,
    }
}

/// Whether a mount point reads as a Windows drive name such as `G:`: at
/// most three bytes, with a colon.
pub fn is_drive_form(mount_point: &str) -> (r: bool)
    ensures
        r == (mount_point.len() <= 3 && exists|i: int|
            0 <= i < mount_point@.len() && mount_point@[i] == ':'),
{
    let n = mount_point.unicode_len();
    let mut i: usize = 0;
    let mut found = false;
    while i < n
        invariant
            i <= n == mount_point@.len(),
            found == exists|j: int| 0 <= j < i && mount_point@[j] == ':',
        decreases n - i,
    {
        if mount_point.get_char(i) == ':' {
            found = true;
        }
        i = i + 1;
    }
    mount_point.len() <= 3 && found
}

/// Whether a mount point counts as mounted: on Windows a drive name must
/// exist and be a directory; any other path need only exist.
pub fn mount_check(windows: bool, drive: bool, exists: bool, is_dir: bool) -> (r: bool)
    ensures
        r == if windows && drive {
            exists && is_dir
        } else {
            exists
        },
{
    if windows && drive {
        exists && is_dir
    } else {
        exists
    }
}

/// `<remote>:<folder>`
pub open spec fn remote_path_text(c: RcloneConfig) -> Seq<char> {
    c.remote_name@ + ":"@ + c.remote_folder@
}

/// The arguments of the mount command: the remote mounted at the mount
/// point with the configured cache mode, visible to every process.
pub fn mount_args(config: &RcloneConfig) -> (r: Vec<String>)
    ensures
        r@.len() == 6,
        r@[0]@ == "mount"@,
        r@[1]@ == remote_path_text(*config),
        r@[2]@ == config.mount_point@,
        r@[3]@ == "--vfs-cache-mode"@,
        r@[4]@ == config.vfs_cache_mode@,
        r@[5]@ == "--network-mode"@,
{
    let mut remote = config.remote_name.clone();
    remote.append(":");
    remote.append(config.remote_folder.as_str());
    vec![
        String::from_str("mount"),
        remote,
        config.mount_point.clone(),
        String::from_str("--vfs-cache-mode"),
        config.vfs_cache_mode.clone(),
        String::from_str("--network-mode"),
    ]
}

/// The first line of a text, without its line end; `None` for empty text.
pub open spec fn first_line_text(t: Seq<char>) -> Option<Seq<char>> {
    if t.len() == 0 {
        None
    } else {
        let e = crate::range::find_from(t, '\n', 0);
        let line = if e < 0 {
            t
        } else {
            t.subrange(0, e)
        };
        Some(
            if line.len() > 0 && line.last() == '\r' {
                line.drop_last()
            } else {
                line
            },
        )
    }
}

/// What the version check reports from the output of `rclone version`: its
/// first line, or `rclone` where it printed nothing.
pub fn version_line(output: &str) -> (r: String)
    ensures
        r@ == match first_line_text(output@) {
            Some(l) => l,
            None => "rclone"@,
        },
{
    let n = output.unicode_len();
    if n == 0 {
        return String::from_str("rclone");
    }
    let mut e: usize = 0;
    while e < n && output.get_char(e) != '\n'
        invariant
            e <= n == output@.len(),
            crate::range::find_from(output@, '\n', 0) == crate::range::find_from(output@, '\n', e as int),
        decreases n - e,
    {
        e = e + 1;
    }
    proof {
        if e == n {
            assert(output@.subrange(0, e as int) =~= output@);
        }
    }
    if e > 0 && output.get_char(e - 1) == '\r' {
        assert(output@.subrange(0, e as int).drop_last() =~= output@.subrange(0, e - 1));
        output.substring_char(0, e - 1).to_owned()
    } else {
        output.substring_char(0, e).to_owned()
    }
}

/// Pause between two looks at the mount point, in milliseconds.
pub const MOUNT_POLL_MS: u64 = 500;

/// What to do while waiting for a mount.
pub enum MountWait {
    Ready,
    WaitMs(u64),
    TimedOut(String),
}

/// `Timeout waiting for mount at <point> after <secs> seconds`
pub open spec fn mount_timeout_text(point: Seq<char>, secs: u64) -> Seq<char> {
    "Timeout waiting for mount at "@ + point + " after "@ + decimal(secs as nat) + " seconds"@
}

/// One look at the mount point, `elapsed_ms` into a wait of `timeout_secs`.
pub fn mount_wait_step(mounted: bool, elapsed_ms: u64, mount_point: &str, timeout_secs: u64) -> (r:
    MountWait)
    ensures
        mounted ==> r is Ready,
        !mounted && (elapsed_ms as int) < timeout_secs * 1000 ==> r matches MountWait::WaitMs(
            MOUNT_POLL_MS,
        ),
        !mounted && (elapsed_ms as int) >= timeout_secs * 1000 ==> (r matches MountWait::TimedOut(m)
            && m@ == mount_timeout_text(mount_point@, timeout_secs)),
{
    if mounted {
        return MountWait::Ready;
    }
    let within = if timeout_secs > u64::MAX / 1000 {
        true
    } else {
        elapsed_ms < timeout_secs * 1000
    };
    if within {
        MountWait::WaitMs(MOUNT_POLL_MS)
    } else {
        proof {
            reveal_strlit("Timeout waiting for mount at ");
            reveal_strlit(" after ");
            reveal_strlit(" seconds");
        }
        let mut m = String::from_str("Timeout waiting for mount at ");
        m.append(mount_point);
        m.append(" after ");
        push_decimal(&mut m, timeout_secs);
        m.append(" seconds");
        MountWait::TimedOut(m)
    }
}

} // verus!
