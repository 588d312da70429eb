//! The decisions of the health probe of the verifier service: where to
//! connect, what to send, and which replies count as healthy.

use vstd::prelude::*;
use vstd::string::StringSliceAdditionalSpecFns;
use crate::json::str_eq;
use crate::text::{decimal, decimal_string};

verus! {

/// The address probed for a bind host and port: a wildcard bind is probed
/// on the loopback address.
pub open spec fn spec_probe_address(host: Seq<char>, port: u16) -> Seq<char> {
    (if host == "0.0.0.0"@ { "127.0.0.1"@ } else { host }) + ":"@ + decimal(port as nat)
}

/// The `host:port` text probed for a bind host and port.
pub fn probe_address(host: &str, port: u16) -> (r: String)
    ensures
        r@ == spec_probe_address(host@, port),
{
    let mut r = if str_eq(host, "0.0.0.0") {
        String::from_str("127.0.0.1")
    } else {
        String::from_str(host)
    };
    r.append(":");
    r.append(decimal_string(port as u64).as_str());
    r
}

/// The HTTP request of the probe.
pub fn probe_request(addr: &str) -> (r: String)
    ensures
        r@ == "GET /health HTTP/1.1\r\nHost: "@ + addr@
            + "\r\nUser-Agent: zktrace-healthcheck\r\nConnection: close\r\nAccept: application/json\r\n\r\n"@,
{
    let mut r = String::from_str("GET /health HTTP/1.1\r\nHost: ");
    r.append(addr);
    r.append("\r\nUser-Agent: zktrace-healthcheck\r\nConnection: close\r\nAccept: application/json\r\n\r\n");
    r
}

/// Whether `bytes` begins with `prefix`.
pub open spec fn starts_with_bytes(bytes: Seq<u8>, prefix: Seq<u8>) -> bool {
    prefix.len() <= bytes.len() && bytes.subrange(0, prefix.len() as int) == prefix
}

/// Whether `bytes` begins with the bytes of `prefix`.
fn bytes_start_with(bytes: &[u8], prefix: &str) -> (b: bool)
    ensures
        b <==> starts_with_bytes(bytes@, prefix.spec_bytes()),
{
    let p = prefix.as_bytes();
    if p.len() > bytes.len() {
        return false;
    }
    let mut i: usize = 0;
    while i < p.len()
        invariant
            p@ == prefix.spec_bytes(),
            p@.len() <= bytes@.len(),
            i <= p@.len(),
            bytes@.subrange(0, i as int) == p@.subrange(0, i as int),
        decreases p@.len() - i,
    {
        if bytes[i] != p[i] {
            assert(bytes@.subrange(0, p@.len() as int)[i as int] != p@[i as int]);
            return false;
        }
        i = i + 1;
        assert(bytes@.subrange(0, i as int) =~= p@.subrange(0, i as int));
    }
    assert(p@.subrange(0, i as int) =~= p@);
    true
}

/// A reply is healthy when it opens with an HTTP/1.1 or HTTP/1.0 200 status.
pub fn response_is_healthy(response: &[u8]) -> (b: bool)
    ensures
        b <==> starts_with_bytes(response@, "HTTP/1.1 200".spec_bytes()) || starts_with_bytes(
            response@,
            "HTTP/1.0 200".spec_bytes(),
        ),
{
    bytes_start_with(response, "HTTP/1.1 200") || bytes_start_with(response, "HTTP/1.0 200")
}

} // verus!
