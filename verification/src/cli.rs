//! The defaults the command line falls back to; flag parsing itself
//! happens outside the library.

use vstd::prelude::*;
use crate::net::DataProtocol;
use crate::log::LogLevel;

verus! {

/// Default listening port.
pub fn port() -> (r: u16)
    ensures
        r == 8080,
{
    8080
}

/// Default transport.
pub fn protocol() -> (r: DataProtocol)
    ensures
        r == DataProtocol::Tcp,
{
    DataProtocol::Tcp
}

/// Default server root directory.
pub fn directory() -> (r: String)
    ensures
        r@ == "./public"@,
{
    proof {
        reveal_strlit("./public");
    }
    "./public".to_owned()
}

/// Default logging verbosity.
pub fn loglevel() -> (r: LogLevel)
    ensures
        r == LogLevel::Info,
{
    LogLevel::Info
}

/// Default worker count.
pub fn threads() -> (r: usize)
    ensures
        r == 4,
{
    4
}

/// The cap on the worker count.
pub fn threads_max() -> (r: usize)
    ensures
        r == 10,
{
    10
}

/// TLS is off unless asked for.
pub fn https() -> (r: bool)
    ensures
        r == false,
{
    false
}

/// Default certificate path.
pub fn https_cert() -> (r: String)
    ensures
        r@ == "./ssl/localhost.crt"@,
{
    proof {
        reveal_strlit("./ssl/localhost.crt");
    }
    "./ssl/localhost.crt".to_owned()
}

/// Default private key path.
pub fn https_priv_key() -> (r: String)
    ensures
        r@ == "./ssl/localhost.key"@,
{
    proof {
        reveal_strlit("./ssl/localhost.key");
    }
    "./ssl/localhost.key".to_owned()
}

} // verus!
