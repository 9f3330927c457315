//! Verified core of the Nestri Windows streaming server: the length-prefixed
//! framing of the relay stream, the signalling and input message logic, GPU and
//! encoder selection, configuration parsing and latency accounting.
use vstd::prelude::*;
use vstd::string::*;

pub mod args;
pub mod enc_helper;
pub mod framing;
pub mod gpu;
pub mod input;
pub mod latency;
pub mod launcher;
pub mod nestrisink;
pub mod p2p;
pub mod proto;
pub mod server;
pub mod text;
pub mod utf16;

verus! {

/// The web client viewers open.
pub const WEB_CLIENT_URL: &'static str = "https://xtreme-gaming.pages.dev";

/// The relay the server connects to unless told otherwise (a libp2p multiaddr).
pub const DEFAULT_RELAY: &'static str =
    "/dnsaddr/relay.dathorse.com/p2p/12D3KooWPK4v5wKYNYx9oXWjqLM8Xix6nm13o91j1Feqq98fLBsw";

/// The URL at which viewers watch the stream of `room`.
pub open spec fn spec_stream_url(room: Seq<char>) -> Seq<char> {
    WEB_CLIENT_URL@ + "/play?room="@ + room
}

/// Viewers watch room `room` at `https://xtreme-gaming.pages.dev/play?room=`
/// followed by the room's name, so different rooms have different URLs.
pub proof fn lemma_stream_url(a: Seq<char>, b: Seq<char>)
    ensures
        spec_stream_url(a) == "https://xtreme-gaming.pages.dev/play?room="@ + a,
        spec_stream_url(a) == spec_stream_url(b) ==> a == b,
{
    reveal_strlit("https://xtreme-gaming.pages.dev");
    reveal_strlit("/play?room=");
    reveal_strlit("https://xtreme-gaming.pages.dev/play?room=");
    let p = "https://xtreme-gaming.pages.dev/play?room="@;
    assert(WEB_CLIENT_URL@ + "/play?room="@ =~= p);
    assert(spec_stream_url(a) =~= p + a);
    assert(spec_stream_url(b) =~= p + b);
    if spec_stream_url(a) == spec_stream_url(b) {
        assert((p + a).skip(p.len() as int) =~= a);
        assert((p + b).skip(p.len() as int) =~= b);
    }
}

/// The URL at which viewers watch the stream of `room`.
pub fn stream_url(room: &str) -> (r: String)
    ensures
        r@ == spec_stream_url(room@),
{
    String::from_str(WEB_CLIENT_URL).concat("/play?room=").concat(room)
}

} // verus!
