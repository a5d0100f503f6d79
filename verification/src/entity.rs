//! The lightweight camera entity: a per-camera record plus the credential
//! resolved for it, and the RTSP URL it exposes.
//!
//! Credentials are resolved by the driver from the environment variable
//! named by `config::password_env_var` and handed in as plain values; the
//! entity never reads the environment itself.

use vstd::prelude::*;
use crate::config::CameraConfig;
use crate::errors::AppError;
use crate::text;

verus! {

/// A camera record together with its resolved credential, if any.
#[derive(Debug, Clone)]
pub struct CameraEntity {
    pub config: CameraConfig,
    pub password: Option<String>,
}

/// The RTSP URL of an entity whose password is present: credentials and
/// host, then the override path (made absolute and trimmed) or the generic
/// default path.
pub open spec fn entity_rtsp_url_spec(e: CameraEntity, pw: Seq<char>) -> Seq<char> {
    let base = "rtsp://"@ + e.config.username@ + ":"@ + pw + "@"@ + e.config.ip@;
    match e.config.rtsp_path_override {
        Some(p) => if p@.len() > 0 && p@[0] == '/' {
            base + p@
        } else {
            base + "/"@ + text::trim_spec(p@)
        },
        None => base + "/cam/realmonitor?channel=1&subtype=0"@,
    }
}

impl CameraEntity {
    /// A fresh entity; the credential is resolved later by the driver.
    pub fn new(config: CameraConfig) -> (r: CameraEntity)
        ensures
            r.config == config,
            r.password is None,
    {
        CameraEntity { config, password: None }
    }

    /// Stores the credential the driver resolved for this camera.
    pub fn set_password(&mut self, password: Option<String>)
        ensures
            final(self).config == old(self).config,
            final(self).password == password,
    {
        self.password = password;
    }

    /// The resolved credential, if any.
    pub fn get_password(&self) -> (r: Option<&String>)
        ensures
            match r {
                Some(p) => self.password matches Some(q) && p@ == q@,
                None => self.password is None,
            },
    {
        match &self.password {
            Some(p) => Some(p),
            None => None,
        }
    }

    /// The RTSP URL for this camera.  Succeeds exactly when the credential
    /// is present; without it the URL cannot be constructed and the error
    /// names the credential problem.
    pub fn get_rtsp_url(&self) -> (r: Result<String, AppError>)
        ensures
            r is Ok <==> self.password is Some,
            r matches Ok(u) ==> (self.password matches Some(p) && u@ == entity_rtsp_url_spec(
                *self,
                p@,
            )),
            r matches Err(e) ==> e is Authentication,
    {
        let pw = match &self.password {
            Some(p) => p,
            None => {
                return Err(
                    AppError::Authentication {
                        camera_name: self.config.name.clone(),
                        details: "password not available for RTSP URL construction".to_owned(),
                    },
                );
            },
        };
        let mut s = String::new();
        text::push_str(&mut s, "rtsp://");
        text::push_str(&mut s, self.config.username.as_str());
        text::push_str(&mut s, ":");
        text::push_str(&mut s, pw.as_str());
        text::push_str(&mut s, "@");
        text::push_str(&mut s, self.config.ip.as_str());
        match &self.config.rtsp_path_override {
            Some(p) => {
                let plen = p.as_str().unicode_len();
                if plen > 0 && p.as_str().get_char(0) == '/' {
                    text::push_str(&mut s, p.as_str());
                } else {
                    text::push_str(&mut s, "/");
                    let trimmed = text::trim_copy(p.as_str(), 0, plen);
                    text::push_str(&mut s, trimmed.as_str());
                    proof {
                        assert(p@.subrange(0, p@.len() as int) =~= p@);
                    }
                }
            },
            None => {
                text::push_str(&mut s, "/cam/realmonitor?channel=1&subtype=0");
            },
        }
        proof {
            assert(s@ =~= entity_rtsp_url_spec(*self, pw@));
        }
        Ok(s)
    }
}

/// Parses a camera-control action argument: `enable` or `disable`,
/// case-insensitively; anything else is a control error.
pub fn parse_control_action(action: &str) -> (r: Result<bool, AppError>)
    ensures
        r matches Ok(true) <==> text::lower_seq(action@) == "enable"@,
        r matches Ok(false) <==> text::lower_seq(action@) == "disable"@,
        r matches Err(e) ==> e is Control,
{
    proof {
        reveal_strlit("enable");
        reveal_strlit("disable");
        assert("enable"@.len() != "disable"@.len());
    }
    let lowered = text::to_lowercase(action);
    if crate::config::str_eq(lowered.as_str(), "enable") {
        Ok(true)
    } else if crate::config::str_eq(lowered.as_str(), "disable") {
        Ok(false)
    } else {
        Err(AppError::Control("action must be 'enable' or 'disable'".to_owned()))
    }
}

/// Control-plane operations against a camera.  Time responses fetched by
/// the driver are parsed and judged by the time modules; the controller
/// itself holds no state.
#[derive(Clone)]
pub struct CameraController {
}

impl CameraController {
    pub fn new() -> (r: CameraController) {
        CameraController {  }
    }

    /// Judges the body of a camera's time response: tolerant-parses it
    /// into seconds since the Unix epoch, failing exactly when no parse
    /// strategy matches.
    pub fn parse_time_response(&self, body: &str) -> (r: Result<i64, AppError>)
        ensures
            r is Ok <==> crate::timeparse::parse_device_time_spec(body@) is Some,
            r matches Ok(t) ==> (crate::timeparse::parse_device_time_spec(body@) matches Some(c)
                && t == crate::timeparse::epoch_of(c)),
            r matches Err(e) ==> e is Operation,
    {
        crate::timeparse::parse_device_time(body)
    }
}

} // verus!
