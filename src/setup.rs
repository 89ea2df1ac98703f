//! Where the connection's transport comes from: an inherited descriptor,
//! or a socket path built from the display name and the runtime directory.
//! The caller reads the environment and hands the values in.
use vstd::prelude::*;
use crate::text::{literal_value, parse_literal, push_char};

verus! {

/// The display name used when none is configured.
pub const DEFAULT_DISPLAY: &'static str = "wayland-0";

/// Why no transport can be set up.
#[derive(Debug, PartialEq, Eq)]
pub enum ConnectError {
    /// The socket at this path could not be connected.
    InvalidDisplayPath(String),
    /// The display name is relative and no runtime directory is set.
    NoXdgRuntimeDir,
    /// The inherited descriptor is not a descriptor number.
    InvalidSocket(String),
}

/// Where to get the transport from.
#[derive(Debug, PartialEq, Eq)]
pub enum Endpoint {
    /// An already connected descriptor.
    Fd(i32),
    /// A socket path to connect to.
    Path(String),
}

/// A path joined to a relative name, with one separator between them.
pub open spec fn joined(dir: Seq<char>, name: Seq<char>) -> Seq<char> {
    if dir.len() == 0 || dir.last() == '/' {
        dir + name
    } else {
        dir + seq!['/'] + name
    }
}

/// The endpoint that the configuration selects: an inherited descriptor
/// first; else the display name (or the default), used as it is where it is
/// absolute and under the runtime directory where it is not. `None` where
/// the descriptor is no number, or a relative name has no directory.
pub open spec fn endpoint_spec(
    socket: Option<Seq<char>>,
    display: Seq<char>,
    runtime_dir: Option<Seq<char>>,
) -> Option<Result<i32, Seq<char>>> {
    match socket {
        Some(s) => match literal_value(s) {
            Some(v) => if v <= i32::MAX {
                Some(Ok(v as i32))
            } else {
                None
            },
            None => None,
        },
        None => if display.len() > 0 && display[0] == '/' {
            Some(Err(display))
        } else {
            match runtime_dir {
                Some(d) => Some(Err(joined(d, display))),
                None => None,
            }
        },
    }
}

fn append_text(out: &mut String, s: &str)
    ensures
        final(out)@ == old(out)@ + s@,
{
    out.append(s);
}

/// Chooses the endpoint from the configuration: `socket` is an inherited
/// descriptor number, `display` the display name, `runtime_dir` the base
/// directory for relative display names.
pub fn resolve_endpoint(
    socket: Option<String>,
    display: Option<String>,
    runtime_dir: Option<String>,
) -> (r: Result<Endpoint, ConnectError>)
    ensures
        ({
            let d = match display {
                Some(n) => n@,
                None => DEFAULT_DISPLAY@,
            };
            let s = match socket {
                Some(t) => Some(t@),
                None => None,
            };
            let rd = match runtime_dir {
                Some(t) => Some(t@),
                None => None,
            };
            match endpoint_spec(s, d, rd) {
                Some(Ok(fd)) => r == Ok::<Endpoint, ConnectError>(Endpoint::Fd(fd)),
                Some(Err(p)) => r matches Ok(Endpoint::Path(q)) && q@ == p,
                None => match socket {
                    Some(t) => r matches Err(ConnectError::InvalidSocket(u)) && u@ == t@,
                    None => r == Err::<Endpoint, ConnectError>(ConnectError::NoXdgRuntimeDir),
                },
            }
        }),
{
    if let Some(s) = socket {
        return match parse_literal(s.as_str()) {
            Some(v) => if v <= 0x7fff_ffff {
                Ok(Endpoint::Fd(v as i32))
            } else {
                Err(ConnectError::InvalidSocket(s))
            },
            None => Err(ConnectError::InvalidSocket(s)),
        };
    }
    let name = match display {
        Some(n) => n,
        None => String::from_str(DEFAULT_DISPLAY),
    };
    let n = name.as_str().unicode_len();
    if n > 0 && name.as_str().get_char(0) == '/' {
        return Ok(Endpoint::Path(name));
    }
    match runtime_dir {
        None => Err(ConnectError::NoXdgRuntimeDir),
        Some(dir) => {
            let mut path = dir.clone();
            let m = dir.as_str().unicode_len();
            if m > 0 && dir.as_str().get_char(m - 1) != '/' {
                push_char(&mut path, '/');
            }
            append_text(&mut path, name.as_str());
            Ok(Endpoint::Path(path))
        },
    }
}

} // verus!
