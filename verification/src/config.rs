//! Static configuration of the user agent.

use vstd::prelude::*;
use crate::ascii::{ascii_bytes, dec_digits, str_bytes, u64_to_dec};
use crate::message::{Header, HeaderView};

verus! {

/// Immutable settings: where the server is, who we are, and which local
/// ports RTP may use (stepped by two).
#[derive(Clone, Debug)]
pub struct Config {
    /// Host (IP or name) of the SIP server.
    pub server_host: Vec<u8>,
    /// Port of the SIP server.
    pub server_port: u16,
    /// Host under which this agent can be reached for RTP.
    pub own_host: Vec<u8>,
    /// Port of this agent's SIP signaling.
    pub own_port: u16,
    /// SIP username.
    pub username: Vec<u8>,
    /// SIP password.
    pub password: Vec<u8>,
    /// First port of the RTP range.
    pub rtp_port_start: u16,
    /// Last port of the RTP range; at least `rtp_port_start`.
    pub rtp_port_end: u16,
}

/// Ghost image of a configuration.
#[verifier::ext_equal]
pub struct ConfigView {
    pub server_host: Seq<u8>,
    pub server_port: u16,
    pub own_host: Seq<u8>,
    pub own_port: u16,
    pub username: Seq<u8>,
    pub password: Seq<u8>,
    pub rtp_port_start: u16,
    pub rtp_port_end: u16,
}

impl View for Config {
    type V = ConfigView;

    open spec fn view(&self) -> ConfigView {
        ConfigView {
            server_host: self.server_host@,
            server_port: self.server_port,
            own_host: self.own_host@,
            own_port: self.own_port,
            username: self.username@,
            password: self.password@,
            rtp_port_start: self.rtp_port_start,
            rtp_port_end: self.rtp_port_end,
        }
    }
}

/// `host:port` in decimal.
pub open spec fn host_port_of(host: Seq<u8>, port: u16) -> Seq<u8> {
    host + seq![58u8] + dec_digits(port as nat)
}

/// The URI under which this agent is reachable:
/// `sip:<username>@<own_host>:<own_port>`.
pub open spec fn own_uri_of(c: ConfigView) -> Seq<u8> {
    ascii_bytes("sip:"@) + c.username + seq![64u8] + host_port_of(c.own_host, c.own_port)
}

/// The URI of the server: `sip:<server_host>:<server_port>;transport=TCP`.
pub open spec fn server_uri_of(c: ConfigView) -> Seq<u8> {
    ascii_bytes("sip:"@) + host_port_of(c.server_host, c.server_port) + ascii_bytes(
        ";transport=TCP"@,
    )
}

/// The URI of a user at the server: `sip:<user>@<server_host>:<server_port>`.
pub open spec fn server_user_uri_of(c: ConfigView, user: Seq<u8>) -> Seq<u8> {
    ascii_bytes("sip:"@) + user + seq![64u8] + host_port_of(c.server_host, c.server_port)
}

/// The value of a `Via` header this agent sends:
/// `SIP/2.0/TCP <own_host>:<own_port>;branch=<branch>;rport`.
pub open spec fn via_value_of(c: ConfigView, branch: Seq<u8>) -> Seq<u8> {
    ascii_bytes("SIP/2.0/TCP "@) + host_port_of(c.own_host, c.own_port) + ascii_bytes(
        ";branch="@,
    ) + branch + ascii_bytes(";rport"@)
}

/// Appends `host:port` to `out`.
pub fn push_host_port(out: &mut Vec<u8>, host: &[u8], port: u16)
    ensures
        final(out)@ == old(out)@ + host_port_of(host@, port),
{
    out.extend_from_slice(host);
    out.push(58);
    let d = u64_to_dec(port as u64);
    out.extend_from_slice(d.as_slice());
    assert(out@ =~= old(out)@ + host_port_of(host@, port));
}

impl Config {
    /// A field-for-field copy of the configuration.
    pub fn duplicate(&self) -> (r: Config)
        ensures
            r@ == self@,
    {
        let r = Config {
            server_host: crate::ascii::subvec(
                self.server_host.as_slice(),
                0,
                self.server_host.len(),
            ),
            server_port: self.server_port,
            own_host: crate::ascii::subvec(self.own_host.as_slice(), 0, self.own_host.len()),
            own_port: self.own_port,
            username: crate::ascii::subvec(self.username.as_slice(), 0, self.username.len()),
            password: crate::ascii::subvec(self.password.as_slice(), 0, self.password.len()),
            rtp_port_start: self.rtp_port_start,
            rtp_port_end: self.rtp_port_end,
        };
        assert(r@ =~~= self@);
        r
    }

    /// The URI under which this agent is reachable.
    pub fn get_own_uri(&self) -> (r: Vec<u8>)
        ensures
            r@ == own_uri_of(self@),
    {
        proof {
            reveal_strlit("sip:");
        }
        let mut out = str_bytes("sip:");
        out.extend_from_slice(self.username.as_slice());
        out.push(64);
        push_host_port(&mut out, self.own_host.as_slice(), self.own_port);
        assert(out@ =~= own_uri_of(self@));
        out
    }

    /// The `Contact` header this agent advertises.
    pub fn get_own_contact(&self) -> (r: Header)
        ensures
            r@ == (HeaderView { name: ascii_bytes("Contact"@), value: own_uri_of(self@) }),
    {
        proof {
            reveal_strlit("Contact");
        }
        Header { name: str_bytes("Contact"), value: self.get_own_uri() }
    }

    /// The `Via` header this agent sends, under a caller-chosen branch.
    pub fn get_own_via(&self, branch: &[u8]) -> (r: Header)
        ensures
            r@ == (HeaderView { name: ascii_bytes("Via"@), value: via_value_of(self@, branch@) }),
    {
        proof {
            reveal_strlit("Via");
            reveal_strlit("SIP/2.0/TCP ");
            reveal_strlit(";branch=");
            reveal_strlit(";rport");
        }
        let mut value = str_bytes("SIP/2.0/TCP ");
        push_host_port(&mut value, self.own_host.as_slice(), self.own_port);
        let b = str_bytes(";branch=");
        value.extend_from_slice(b.as_slice());
        value.extend_from_slice(branch);
        let rp = str_bytes(";rport");
        value.extend_from_slice(rp.as_slice());
        assert(value@ =~= via_value_of(self@, branch@));
        Header { name: str_bytes("Via"), value }
    }
}

} // verus!
