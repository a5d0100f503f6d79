//! The IP-camera adapter's decision logic.
//!
//! The driver performs the HTTP and RTSP transport; everything the adapter
//! decides — which URLs to contact, which credential to use, and whether a
//! snapshot response counts as a capture — is verified here.

use vstd::prelude::*;
use crate::config::{password_env_var_spec, IpCameraSpecificConfig};
use crate::config;
use crate::errors::AppError;
use crate::frames::IpImage;
use crate::text;

verus! {

/// An IP camera plus the credential the driver resolved for it.
pub struct IpCameraDevice {
    pub name: String,
    pub config: IpCameraSpecificConfig,
    pub password: Option<String>,
}

/// The RTSP URL of the device: `rtsp://{user}:{pw}@{ip}:{port}{path}` with
/// the configured port (554 when unset) and the path made absolute.
pub open spec fn ip_rtsp_url_spec(
    d: IpCameraDevice,
    user: Seq<char>,
    pw: Seq<char>,
    path: Seq<char>,
) -> Seq<char> {
    let port = match d.config.rtsp_port {
        Some(p) => p,
        None => 554u16,
    };
    let formatted_path = if path.len() > 0 && path[0] != '/' {
        "/"@ + path
    } else {
        path
    };
    "rtsp://"@ + user + ":"@ + pw + "@"@ + d.config.ip@ + ":"@ + text::dec_str(port as nat)
        + formatted_path
}

/// The CGI snapshot URL of the device.
pub open spec fn snapshot_url_spec(ip: Seq<char>) -> Seq<char> {
    "http://"@ + ip + "/cgi-bin/snapshot.cgi?channel=1"@
}

/// The CGI time URL of a device: the configured time path when one is
/// set, else the standard one.
pub open spec fn time_url_spec(ip: Seq<char>, cgi_time_path: Option<Seq<char>>) -> Seq<char> {
    let path = match cgi_time_path {
        Some(p) => p,
        None => "/cgi-bin/global.cgi?action=getCurrentTime"@,
    };
    "http://"@ + ip + path
}

/// Builds the URL the time query contacts for a device.
pub fn time_query_url(ip: &str, cgi_time_path: Option<&String>) -> (r: String)
    ensures
        r@ == time_url_spec(
            ip@,
            match cgi_time_path {
                Some(p) => Some(p@),
                None => None,
            },
        ),
{
    let mut s = String::new();
    text::push_str(&mut s, "http://");
    text::push_str(&mut s, ip);
    match cgi_time_path {
        Some(p) => {
            text::push_str(&mut s, p.as_str());
            proof {
                assert(s@ =~= "http://"@ + ip@ + p@);
            }
        },
        None => {
            text::push_str(&mut s, "/cgi-bin/global.cgi?action=getCurrentTime");
            proof {
                assert(s@ =~= "http://"@ + ip@ + "/cgi-bin/global.cgi?action=getCurrentTime"@);
            }
        },
    }
    s
}

impl IpCameraDevice {
    /// A fresh adapter; the credential is resolved later by the driver.
    pub fn new(name: String, config: IpCameraSpecificConfig) -> (r: IpCameraDevice)
        ensures
            r.name == name,
            r.config == config,
            r.password is None,
    {
        IpCameraDevice { name, config, password: None }
    }

    /// Stores the credential the driver resolved for this camera.
    pub fn set_password(&mut self, password: Option<String>)
        ensures
            final(self).name == old(self).name,
            final(self).config == old(self).config,
            final(self).password == password,
    {
        self.password = password;
    }

    /// The credential for this camera.  Succeeds exactly when the driver
    /// resolved one; otherwise the error names the environment variable
    /// that was expected to hold it.
    pub fn get_password(&self) -> (r: Result<String, AppError>)
        ensures
            r is Ok <==> self.password is Some,
            r matches Ok(p) ==> (self.password matches Some(q) && p@ == q@),
            r matches Err(e) ==> (e matches AppError::Authentication { camera_name, details } && {
                &&& camera_name@ == self.name@
                &&& details@ == "password not found in environment variable "@
                    + password_env_var_spec(self.name@)
            }),
    {
        match &self.password {
            Some(p) => Ok(p.clone()),
            None => {
                let var = config::password_env_var(self.name.as_str());
                let mut details = String::new();
                text::push_str(&mut details, "password not found in environment variable ");
                text::push_str(&mut details, var.as_str());
                proof {
                    assert(details@ =~= "password not found in environment variable "@
                        + password_env_var_spec(self.name@));
                }
                Err(AppError::Authentication { camera_name: self.name.clone(), details })
            },
        }
    }

    /// The RTSP URL for recording.  Succeeds exactly when the username,
    /// the credential and the RTSP path are all present; a missing
    /// credential is an authentication error, the other gaps are
    /// configuration errors.
    pub fn get_rtsp_url(&self) -> (r: Result<String, AppError>)
        ensures
            r is Ok <==> (self.config.username is Some && self.password is Some
                && self.config.rtsp_path is Some),
            r matches Ok(u) ==> (self.config.username matches Some(user)
                && self.password matches Some(pw) && self.config.rtsp_path matches Some(path) && u@
                == ip_rtsp_url_spec(*self, user@, pw@, path@)),
            r matches Err(e) ==> (e is Config || e is Authentication),
            self.config.username is None ==> (r matches Err(e) && e is Config),
            (self.config.username is Some && self.password is None) ==> (r matches Err(e)
                && e is Authentication),
            (self.config.username is Some && self.password is Some
                && self.config.rtsp_path is None) ==> (r matches Err(e) && e is Config),
    {
        let user = match &self.config.username {
            Some(u) => u,
            None => {
                return Err(AppError::Config("username not configured for RTSP".to_owned()));
            },
        };
        let pw = match self.get_password() {
            Ok(p) => p,
            Err(e) => {
                return Err(e);
            },
        };
        let path = match &self.config.rtsp_path {
            Some(p) => p,
            None => {
                return Err(AppError::Config("RTSP path not configured".to_owned()));
            },
        };
        let port: u16 = match self.config.rtsp_port {
            Some(p) => p,
            None => 554,
        };
        let mut s = String::new();
        text::push_str(&mut s, "rtsp://");
        text::push_str(&mut s, user.as_str());
        text::push_str(&mut s, ":");
        text::push_str(&mut s, pw.as_str());
        text::push_str(&mut s, "@");
        text::push_str(&mut s, self.config.ip.as_str());
        text::push_str(&mut s, ":");
        text::append_u64(&mut s, port as u64);
        let plen = path.as_str().unicode_len();
        if plen > 0 && path.as_str().get_char(0) != '/' {
            text::push_str(&mut s, "/");
            text::push_str(&mut s, path.as_str());
        } else {
            text::push_str(&mut s, path.as_str());
        }
        proof {
            assert(s@ =~= ip_rtsp_url_spec(*self, user@, pw@, path@));
        }
        Ok(s)
    }

    /// The device's registered name.
    pub fn get_name(&self) -> (r: &String)
        ensures
            r@ == self.name@,
    {
        &self.name
    }

    /// The adapter's device-type tag.
    pub fn get_type(&self) -> (r: &'static str)
        ensures
            r@ == "ip-camera"@,
    {
        "ip-camera"
    }

    /// The CGI snapshot URL the driver contacts.
    pub fn snapshot_url(&self) -> (r: String)
        ensures
            r@ == snapshot_url_spec(self.config.ip@),
    {
        let mut s = String::new();
        text::push_str(&mut s, "http://");
        text::push_str(&mut s, self.config.ip.as_str());
        text::push_str(&mut s, "/cgi-bin/snapshot.cgi?channel=1");
        proof {
            assert(s@ =~= snapshot_url_spec(self.config.ip@));
        }
        s
    }
}

/// Judges an HTTP snapshot response: a capture succeeds exactly when the
/// status is 2xx and the body is non-empty, and then the frame carries the
/// body bytes verbatim with the configured format as a hint.
pub fn evaluate_snapshot_response(name: &str, status: u16, body: Vec<u8>, format_hint: &str) -> (r:
    Result<IpImage, AppError>)
    ensures
        r is Ok <==> (200 <= status < 300 && body@.len() > 0),
        r matches Ok(img) ==> {
            &&& img.name@ == name@
            &&& img.bytes@ == body@
            &&& img.format@ == format_hint@
        },
        r matches Err(e) ==> e is HttpCgi,
{
    if status < 200 || status >= 300 {
        let mut m = String::new();
        text::push_str(&mut m, "HTTP request for ");
        text::push_str(&mut m, name);
        text::push_str(&mut m, " failed with non-success status");
        return Err(AppError::HttpCgi(m));
    }
    if body.len() == 0 {
        let mut m = String::new();
        text::push_str(&mut m, "HTTP snapshot for ");
        text::push_str(&mut m, name);
        text::push_str(&mut m, " returned an empty body");
        return Err(AppError::HttpCgi(m));
    }
    Ok(IpImage { name: name.to_owned(), bytes: body, format: format_hint.to_owned() })
}

} // verus!
