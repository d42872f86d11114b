//! # HTTP replies
//!
//! What the REST endpoints answer, apart from the JSON encoding:
//!
//! - `GET /api/devices/{id}` and `GET /api/devices/{id}/features` answer 200
//!   with the device, or 404 with `Device '<id>' not found`.
//! - `POST /api/reload` replaces the running configuration and answers 200
//!   `ok` / `Config reloaded successfully` when the config file loaded, or
//!   keeps it and answers 500 `error` / `Failed to reload config: <reason>`
//!   when it did not.

use vstd::prelude::*;

use crate::config::Config;

verus! {

/// HTTP status of a device lookup: 200 when found, 404 when not.
pub fn lookup_status(found: bool) -> (code: u16)
    ensures
        code == if found { 200u16 } else { 404u16 },
{
    if found {
        200
    } else {
        404
    }
}

/// The error message for a device that no device name contains.
pub fn not_found_message(id: &str) -> (m: String)
    ensures
        m@ == "Device '"@ + id@ + "' not found"@,
{
    let mut m = String::from_str("Device '");
    m.append(id);
    m.append("' not found");
    m
}

/// The reply to a config reload.
pub struct ReloadReply {
    /// HTTP status code.
    pub code: u16,
    /// `"ok"` or `"error"`.
    pub status: String,
    /// Human-readable message.
    pub message: String,
}

/// The reply to a config reload, given the reason it failed, if it did.
pub fn reload_reply(failure: Option<&str>) -> (r: ReloadReply)
    ensures
        match failure {
            None => {
                &&& r.code == 200
                &&& r.status@ == "ok"@
                &&& r.message@ == "Config reloaded successfully"@
            },
            Some(reason) => {
                &&& r.code == 500
                &&& r.status@ == "error"@
                &&& r.message@ == "Failed to reload config: "@ + reason@
            },
        },
{
    match failure {
        None => ReloadReply {
            code: 200,
            status: String::from_str("ok"),
            message: String::from_str("Config reloaded successfully"),
        },
        Some(reason) => {
            let mut message = String::from_str("Failed to reload config: ");
            message.append(reason);
            ReloadReply { code: 500, status: String::from_str("error"), message }
        },
    }
}

/// A config reload: the configuration that runs afterwards and the reply.
/// A file that loaded replaces the running configuration; on failure the
/// running configuration stays and the reply names the reason.
pub fn reload_step(current: Config, loaded: Result<Config, String>) -> (r: (Config, ReloadReply))
    ensures
        match loaded {
            Ok(c) => {
                &&& r.0 == c
                &&& r.1.code == 200
                &&& r.1.status@ == "ok"@
                &&& r.1.message@ == "Config reloaded successfully"@
            },
            Err(e) => {
                &&& r.0 == current
                &&& r.1.code == 500
                &&& r.1.status@ == "error"@
                &&& r.1.message@ == "Failed to reload config: "@ + e@
            },
        },
{
    match loaded {
        Ok(c) => (c, reload_reply(None)),
        Err(e) => {
            let reply = reload_reply(Some(e.as_str()));
            (current, reply)
        },
    }
}

/// The message for a config file that could not be read (`Failed to read '<path>': <reason>`)
/// or parsed (`Failed to parse '<path>': <reason>`).
pub fn load_failure_message(read_failed: bool, path: &str, reason: &str) -> (m: String)
    ensures
        m@ == (if read_failed { "Failed to read '"@ } else { "Failed to parse '"@ }) + path@ + "': "@
            + reason@,
{
    let mut m = if read_failed {
        String::from_str("Failed to read '")
    } else {
        String::from_str("Failed to parse '")
    };
    m.append(path);
    m.append("': ");
    m.append(reason);
    m
}

} // verus!
