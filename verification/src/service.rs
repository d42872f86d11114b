//! # Systemd service management
//!
//! What installing, removing and controlling the `lm-sensors-web` systemd
//! service amounts to: the unit file's text, where it goes, and the
//! `systemctl` command lines to run. Writing files and running `systemctl`
//! happen in the program around this library.
//!
//! | Operation   | Action                                                   |
//! |-------------|----------------------------------------------------------|
//! | `install`   | write the unit file, `systemctl daemon-reload`           |
//! | `uninstall` | `stop`, `disable`, remove the unit file, `daemon-reload` |
//! | `control`   | `systemctl <action>` (start / stop / restart)            |
//! | `status`    | `systemctl status`                                       |
//!
//! Every `systemctl` call names the service and, for a user-level service,
//! comes with `--user`. A system-wide unit lives in `/etc/systemd/system`, a
//! user-level one in `systemd/user` under the user's config directory.

use vstd::prelude::*;

use crate::text::{opt_text, texts};

verus! {

/// Name for what `std::path::Path::parent` gives for a path: the path
/// without its final component, or `None` for a root or an empty path.
pub uninterp spec fn path_parent(path: Seq<char>) -> Option<Seq<char>>;

/// Calls `std::path::Path::parent` and renders the result as text.
/// Trusted: the result is `path_parent` of the argument.
#[verifier::external_body]
fn parent_of(path: &str) -> (r: Option<String>)
    ensures
        opt_text(r) == path_parent(path@),
{
    match std::path::Path::new(path).parent() {
        Some(p) => Some(p.display().to_string()),
        None => None,
    }
}

/// `base` joined with `rel` as `PathBuf::join` does on Unix: an absolute
/// `rel` replaces `base`; otherwise a `/` is put between them unless `base`
/// is empty or already ends with one.
pub open spec fn joined(base: Seq<char>, rel: Seq<char>) -> Seq<char> {
    if rel.len() > 0 && rel[0] == '/' {
        rel
    } else if base.len() > 0 && base.last() != '/' {
        base + seq!['/'] + rel
    } else {
        base + rel
    }
}

/// Join two paths (see [`joined`]).
pub fn join_path(base: &str, rel: &str) -> (r: String)
    ensures
        r@ == joined(base@, rel@),
{
    let rel_chars = crate::text::chars_of(rel);
    let base_chars = crate::text::chars_of(base);
    if rel_chars.len() > 0 && rel_chars[0] == '/' {
        return String::from_str(rel);
    }
    let mut r = String::from_str(base);
    if base_chars.len() > 0 && base_chars[base_chars.len() - 1] != '/' {
        r.push('/');
    }
    r.append(rel);
    r
}

/// The unit file's text.
pub open spec fn unit_text(working_dir: Seq<char>, binary: Seq<char>, config: Seq<char>) -> Seq<char> {
    "[Unit]\nDescription=LM Sensors Web API Service\nAfter=network.target\n\n[Service]\nType=simple\nWorkingDirectory="@
        + working_dir + "\nExecStart="@ + binary + "\nEnvironment=RUST_LOG=info\nEnvironment=CONFIG_PATH="@
        + config
        + "\nRestart=on-failure\nRestartSec=5\nStandardOutput=journal\nStandardError=journal\n\n[Install]\nWantedBy=multi-user.target\n"@
}

/// The working directory of the service: the binary's directory, or `/`
/// when the binary's path has no parent.
pub open spec fn working_dir_of(binary: Seq<char>) -> Seq<char> {
    match path_parent(binary) {
        Some(p) => p,
        None => "/"@,
    }
}

/// The `systemctl` arguments for an action on the service.
pub open spec fn systemctl_line(user: bool, action: Seq<char>) -> Seq<Seq<char>> {
    if user {
        seq!["--user"@, action, "lm-sensors-web"@]
    } else {
        seq![action, "lm-sensors-web"@]
    }
}

/// Where the unit file goes: `systemd/user` under the user's config directory
/// for a user-level service (an error when that directory is unknown), else
/// `/etc/systemd/system`.
pub open spec fn unit_location(user: bool, config_dir: Option<Seq<char>>) -> Result<Seq<char>, Seq<char>> {
    if user {
        match config_dir {
            Some(d) => Ok(joined(joined(d, "systemd/user"@), "lm-sensors-web.service"@)),
            None => Err("Cannot determine user config directory"@),
        }
    } else {
        Ok(joined("/etc/systemd/system"@, "lm-sensors-web.service"@))
    }
}

/// What installing the service does.
pub struct InstallPlan {
    /// Path of the unit file.
    pub unit_path: String,
    /// Directory to create first, if the path has one.
    pub create_dir: Option<String>,
    /// The unit file's text.
    pub contents: String,
    /// `systemctl` arguments to run afterwards (`daemon-reload`).
    pub reload: Vec<String>,
}

/// Systemd service manager.
pub struct ServiceManager;

impl ServiceManager {
    /// The unit file for a binary whose directory is `working_dir`.
    pub fn unit_file_in(working_dir: &str, binary: &str, config: &str) -> (u: String)
        ensures
            u@ == unit_text(working_dir@, binary@, config@),
    {
        let mut u = String::from_str(
            "[Unit]\nDescription=LM Sensors Web API Service\nAfter=network.target\n\n[Service]\nType=simple\nWorkingDirectory=",
        );
        u.append(working_dir);
        u.append("\nExecStart=");
        u.append(binary);
        u.append("\nEnvironment=RUST_LOG=info\nEnvironment=CONFIG_PATH=");
        u.append(config);
        u.append(
            "\nRestart=on-failure\nRestartSec=5\nStandardOutput=journal\nStandardError=journal\n\n[Install]\nWantedBy=multi-user.target\n",
        );
        u
    }

    /// The unit file: auto-restart, journal logging, the binary's directory as
    /// working directory and the config path in `CONFIG_PATH`.
    pub fn unit_file(binary: &str, config: &str) -> (u: String)
        ensures
            u@ == unit_text(working_dir_of(binary@), binary@, config@),
    {
        match parent_of(binary) {
            Some(p) => ServiceManager::unit_file_in(p.as_str(), binary, config),
            None => ServiceManager::unit_file_in("/", binary, config),
        }
    }

    /// The `systemctl` arguments for `action` on the service (`--user` first for a user-level one).
    pub fn systemctl_args(user: bool, action: &str) -> (args: Vec<String>)
        ensures
            texts(args@) == systemctl_line(user, action@),
    {
        let mut args: Vec<String> = Vec::new();
        if user {
            args.push(String::from_str("--user"));
        }
        args.push(String::from_str(action));
        args.push(String::from_str("lm-sensors-web"));
        assert(texts(args@) =~= systemctl_line(user, action@));
        args
    }

    /// Controlling the service (start, stop, restart) runs `systemctl <action>`; these are its arguments.
    pub fn control(action: &str, user: bool) -> (args: Vec<String>)
        ensures
            texts(args@) == systemctl_line(user, action@),
    {
        ServiceManager::systemctl_args(user, action)
    }

    /// Showing the status runs `systemctl status`; these are its arguments.
    pub fn status(user: bool) -> (args: Vec<String>)
        ensures
            texts(args@) == systemctl_line(user, "status"@),
    {
        ServiceManager::systemctl_args(user, "status")
    }

    /// The path of the unit file (see [`unit_location`]).
    pub fn unit_path(user: bool, config_dir: &Option<String>) -> (r: Result<String, String>)
        ensures
            match (r, unit_location(user, opt_text(*config_dir))) {
                (Ok(p), Ok(q)) => p@ == q,
                (Err(e), Err(f)) => e@ == f,
                _ => false,
            },
    {
        if user {
            match config_dir {
                Some(d) => {
                    let dir = join_path(d.as_str(), "systemd/user");
                    Ok(join_path(dir.as_str(), "lm-sensors-web.service"))
                },
                None => Err(String::from_str("Cannot determine user config directory")),
            }
        } else {
            Ok(join_path("/etc/systemd/system", "lm-sensors-web.service"))
        }
    }

    /// What installing the service does: write the unit file for `binary`
    /// and `config` (creating its directory first), then reload systemd.
    pub fn install_plan(binary: &str, config: &str, user: bool, config_dir: &Option<String>) -> (r:
        Result<InstallPlan, String>)
        ensures
            match (r, unit_location(user, opt_text(*config_dir))) {
                (Ok(plan), Ok(path)) => {
                    &&& plan.unit_path@ == path
                    &&& opt_text(plan.create_dir) == path_parent(path)
                    &&& plan.contents@ == unit_text(working_dir_of(binary@), binary@, config@)
                    &&& texts(plan.reload@) == systemctl_line(user, "daemon-reload"@)
                },
                (Err(e), Err(f)) => e@ == f,
                _ => false,
            },
    {
        let contents = ServiceManager::unit_file(binary, config);
        match ServiceManager::unit_path(user, config_dir) {
            Ok(unit_path) => {
                let create_dir = parent_of(unit_path.as_str());
                let reload = ServiceManager::systemctl_args(user, "daemon-reload");
                Ok(InstallPlan { unit_path, create_dir, contents, reload })
            },
            Err(e) => Err(e),
        }
    }

    /// The binary a unit file runs: the one given, else the running
    /// executable, else `/usr/local/bin/lm-sensors-web`.
    pub fn resolve_binary(given: Option<String>, current_exe: Option<String>) -> (b: String)
        ensures
            b@ == match (given, current_exe) {
                (Some(g), _) => g@,
                (None, Some(e)) => e@,
                (None, None) => "/usr/local/bin/lm-sensors-web"@,
            },
    {
        match given {
            Some(g) => g,
            None => match current_exe {
                Some(e) => e,
                None => String::from_str("/usr/local/bin/lm-sensors-web"),
            },
        }
    }
}

// ── Laws ────────────────────────────────────────────────────────────

/// Every `systemctl` call names the service last, the action just before it,
/// and starts with `--user` exactly for a user-level service.
pub proof fn lemma_systemctl_line(user: bool, action: Seq<char>)
    ensures
        systemctl_line(user, action).last() == "lm-sensors-web"@,
        systemctl_line(user, action)[systemctl_line(user, action).len() - 2] == action,
        systemctl_line(user, action).len() == if user { 3int } else { 2int },
        user ==> systemctl_line(user, action)[0] == "--user"@,
{
}

/// The unit file runs the given binary, from its directory, with the given config path.
pub proof fn lemma_unit_mentions(working_dir: Seq<char>, binary: Seq<char>, config: Seq<char>)
    ensures
        ({
            let u = unit_text(working_dir, binary, config);
            let wd_line = "WorkingDirectory="@ + working_dir;
            let exec_line = "ExecStart="@ + binary;
            let cfg_line = "CONFIG_PATH="@ + config;
            &&& crate::text::occurs_in(u, wd_line)
            &&& crate::text::occurs_in(u, exec_line)
            &&& crate::text::occurs_in(u, cfg_line)
        }),
{
    let head = "[Unit]\nDescription=LM Sensors Web API Service\nAfter=network.target\n\n[Service]\nType=simple\n"@;
    let wd_key = "WorkingDirectory="@;
    let exec_key = "\nExecStart="@;
    let env_key = "\nEnvironment=RUST_LOG=info\nEnvironment="@;
    let cfg_key = "CONFIG_PATH="@;
    let tail = "\nRestart=on-failure\nRestartSec=5\nStandardOutput=journal\nStandardError=journal\n\n[Install]\nWantedBy=multi-user.target\n"@;
    reveal_strlit("[Unit]\nDescription=LM Sensors Web API Service\nAfter=network.target\n\n[Service]\nType=simple\nWorkingDirectory=");
    reveal_strlit("[Unit]\nDescription=LM Sensors Web API Service\nAfter=network.target\n\n[Service]\nType=simple\n");
    reveal_strlit("WorkingDirectory=");
    reveal_strlit("\nExecStart=");
    reveal_strlit("ExecStart=");
    reveal_strlit("\nEnvironment=RUST_LOG=info\nEnvironment=CONFIG_PATH=");
    reveal_strlit("\nEnvironment=RUST_LOG=info\nEnvironment=");
    reveal_strlit("CONFIG_PATH=");
    let u = unit_text(working_dir, binary, config);
    assert(u =~= head + (wd_key + working_dir) + seq!['\n'] + (exec_key.drop_first() + binary) + env_key + (cfg_key + config) + tail);
    let wd_line = wd_key + working_dir;
    let exec_line = "ExecStart="@ + binary;
    let cfg_line = cfg_key + config;
    let i1 = head.len() as int;
    assert(u.subrange(i1, i1 + wd_line.len()) =~= wd_line);
    let i2 = i1 + wd_line.len() + 1;
    assert(u.subrange(i2, i2 + exec_line.len()) =~= exec_line);
    let i3 = i2 + exec_line.len() + env_key.len();
    assert(u.subrange(i3, i3 + cfg_line.len()) =~= cfg_line);
}

} // verus!
