use vstd::prelude::*;

verus! {

/// The one request sent upstream for `host`, whatever the client asked for.
pub open spec fn request_text(host: Seq<char>) -> Seq<char> {
    "GET / HTTP/1.1\r\nHost: "@ + host + "\r\nConnection: close\r\n\r\n"@
}

/// Writes the fixed upstream request: `GET /` over HTTP/1.1 with the given
/// `Host` and `Connection: close`, so that the peer's close ends the response.
pub fn outbound_request(host: &str) -> (r: String)
    ensures
        r@ == request_text(host@),
{
    let mut r = String::from_str("GET / HTTP/1.1\r\nHost: ");
    r.append(host);
    r.append("\r\nConnection: close\r\n\r\n");
    r
}

} // verus!
