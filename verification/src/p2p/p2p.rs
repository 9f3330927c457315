//! Connecting to the relay: the relay's address is a libp2p multiaddr whose
//! last component names the relay's peer id.
use vstd::prelude::*;

verus! {

#[verifier::external_type_specification]
#[verifier::external_body]
pub struct ExMultiaddr(libp2p::Multiaddr);

/// What libp2p reads from a multiaddr text: `None` if it is no multiaddr,
/// otherwise the bytes of the peer id its last component names, if that
/// component is `/p2p/<peer id>`.
pub uninterp spec fn multiaddr_last_p2p(s: Seq<char>) -> Option<Option<Seq<u8>>>;

/// Calls `Multiaddr::from_str` on `s` and, on success, reads the last
/// component with `Multiaddr::iter`; a `/p2p/` component gives its
/// `PeerId::to_bytes`. The contract claims that the outcome depends on the
/// text alone; the parsed address itself is handed back as it is.
#[verifier::external_body]
fn multiaddr_peer(s: &str) -> (r: Option<(libp2p::Multiaddr, Option<Vec<u8>>)>)
    ensures
        match r {
            None => multiaddr_last_p2p(s@) is None,
            Some((_, p)) => multiaddr_last_p2p(s@) == Some(
                match p {
                    Some(v) => Some(v@),
                    None => None::<Seq<u8>>,
                },
            ),
        },
{
    match s.parse::<libp2p::Multiaddr>() {
        Ok(addr) => {
            let peer = match addr.iter().last() {
                Some(libp2p::multiaddr::Protocol::P2p(id)) => Some(id.to_bytes()),
                _ => None,
            };
            Some((addr, peer))
        },
        Err(_) => None,
    }
}

/// How connecting to a relay address goes.
#[derive(Debug)]
pub enum ConnectPlan {
    /// Dial `addr`, then fail: the address names no peer to open streams to.
    DialThenMissingPeer { addr: libp2p::Multiaddr },
    /// Dial `addr` and open streams to the peer whose id has the bytes `peer`.
    Dial { addr: libp2p::Multiaddr, peer: Vec<u8> },
}

/// Why a relay connection could not be made.
#[derive(Debug, Clone, Copy, PartialEq, Eq)]
pub enum ConnectError {
    /// The relay address is no multiaddr.
    InvalidMultiaddr,
    /// The relay address does not end in `/p2p/<peer_id>`.
    MissingPeerId,
}

impl ConnectError {
    /// The error's text.
    pub fn message(&self) -> (r: &'static str)
        ensures
            r@ == (match *self {
                ConnectError::InvalidMultiaddr => "Invalid multiaddr"@,
                ConnectError::MissingPeerId => "Invalid multiaddr: missing /p2p/<peer_id>"@,
            }),
    {
        match self {
            ConnectError::InvalidMultiaddr => "Invalid multiaddr",
            ConnectError::MissingPeerId => "Invalid multiaddr: missing /p2p/<peer_id>",
        }
    }
}

/// What connecting to the relay at `conn_url` does: a text that is no
/// multiaddr is refused before anything is dialled; an address that does not
/// end in `/p2p/<peer_id>` is dialled and then refused (`MissingPeerId`);
/// otherwise the address is dialled and streams go to the peer it names.
pub fn connect_plan(conn_url: &str) -> (r: Result<ConnectPlan, ConnectError>)
    ensures
        match multiaddr_last_p2p(conn_url@) {
            None => r == Err::<ConnectPlan, ConnectError>(ConnectError::InvalidMultiaddr),
            Some(None) => r matches Ok(ConnectPlan::DialThenMissingPeer { .. }),
            Some(Some(p)) => r matches Ok(ConnectPlan::Dial { peer, .. }) && peer@ == p,
        },
{
    match multiaddr_peer(conn_url) {
        None => Err(ConnectError::InvalidMultiaddr),
        Some((addr, None)) => Ok(ConnectPlan::DialThenMissingPeer { addr }),
        Some((addr, Some(peer))) => Ok(ConnectPlan::Dial { addr, peer }),
    }
}

} // verus!
