//! Where the HTTP server listens: the host `*` means every address, IPv6
//! and IPv4 together when the system allows, else IPv4 alone.
use crate::text::decimal_string;
use crate::text::decimal_text;
use vstd::prelude::*;
use vstd::string::*;

verus! {

/// How to bind the server's listening socket.
#[derive(Debug)]
pub enum ListenPlan {
    /// Bind a dual-stack IPv6 socket to `ipv6`; failing that, an IPv4
    /// socket to `ipv4`.
    Wildcard { ipv6: String, ipv4: String },
    /// Bind to this `host:port` address.
    Address(String),
}

/// The plan for a host and port: `*` listens everywhere.
pub fn listen_plan(host: &str, port: u16) -> (r: ListenPlan)
    ensures
        host@ == "*"@ ==> (r matches ListenPlan::Wildcard { ipv6, ipv4 } && ipv6@ == "[::]:"@
            + decimal_text(port as nat) && ipv4@ == "0.0.0.0:"@ + decimal_text(port as nat)),
        host@ != "*"@ ==> (r matches ListenPlan::Address(a) && a@ == host@ + ":"@ + decimal_text(
            port as nat,
        )),
{
    let p = decimal_string(port as u64);
    if crate::text::str_eq(host, "*") {
        ListenPlan::Wildcard {
            ipv6: String::from_str("[::]:").concat(p.as_str()),
            ipv4: String::from_str("0.0.0.0:").concat(p.as_str()),
        }
    } else {
        ListenPlan::Address(String::from_str(host).concat(":").concat(p.as_str()))
    }
}

} // verus!
