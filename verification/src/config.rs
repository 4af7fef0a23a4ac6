//! The configuration value that describes one instance: who it is, which
//! peers it dials and where it listens.

use vstd::prelude::*;

use crate::text::{decimal, push_decimal};

verus! {

/// A transport address: `scheme://host:port`.
#[derive(Debug, PartialEq, Eq)]
pub struct Uri {
    pub scheme: String,
    pub host: String,
    pub port: u16,
}

/// What a [`Uri`] holds, as mathematical values.
pub struct UriView {
    pub scheme: Seq<char>,
    pub host: Seq<char>,
    pub port: u16,
}

impl UriView {
    /// The address written out as `scheme://host:port`.
    pub open spec fn text(self) -> Seq<char> {
        self.scheme + "://"@ + self.host + ":"@ + decimal(self.port as nat)
    }
}

impl View for Uri {
    type V = UriView;

    open spec fn view(&self) -> UriView {
        UriView { scheme: self.scheme@, host: self.host@, port: self.port }
    }
}

impl Clone for Uri {
    fn clone(&self) -> (r: Self)
        ensures
            r@ == self@,
    {
        Uri { scheme: self.scheme.clone(), host: self.host.clone(), port: self.port }
    }
}

impl Uri {
    /// The address with the given scheme, host and port.
    pub fn new(scheme: &str, host: &str, port: u16) -> (r: Uri)
        ensures
            r@ == (UriView { scheme: scheme@, host: host@, port }),
    {
        Uri { scheme: String::from_str(scheme), host: String::from_str(host), port }
    }

    /// Writes the address out as `scheme://host:port`.
    pub fn render(&self) -> (s: String)
        ensures
            s@ == self@.text(),
    {
        let mut s = self.scheme.clone();
        s.append("://");
        s.append(self.host.as_str());
        s.append(":");
        push_decimal(&mut s, self.port as u32);
        s
    }
}

/// The views of a sequence of addresses, in the same order.
pub open spec fn uri_views(uris: Seq<Uri>) -> Seq<UriView> {
    Seq::new(uris.len(), |i: int| uris[i]@)
}

/// A copy of a list of addresses.
pub fn clone_uris(uris: &Vec<Uri>) -> (r: Vec<Uri>)
    ensures
        uri_views(r@) == uri_views(uris@),
{
    let mut r: Vec<Uri> = Vec::new();
    let mut i: usize = 0;
    while i < uris.len()
        invariant
            i <= uris@.len(),
            r@.len() == i,
            forall|j: int| 0 <= j < i ==> r@[j]@ == uris@[j]@,
        decreases uris@.len() - i,
    {
        r.push(uris[i].clone());
        i += 1;
    }
    assert(uri_views(r@) =~= uri_views(uris@));
    r
}

/// The name of a network and the secret its members share.
#[derive(Debug, PartialEq, Eq)]
pub struct NetworkIdentity {
    pub network_name: String,
    pub network_secret: String,
}

/// What a [`NetworkIdentity`] holds, as mathematical values.
pub struct NetworkIdentityView {
    pub network_name: Seq<char>,
    pub network_secret: Seq<char>,
}

impl View for NetworkIdentity {
    type V = NetworkIdentityView;

    open spec fn view(&self) -> NetworkIdentityView {
        NetworkIdentityView {
            network_name: self.network_name@,
            network_secret: self.network_secret@,
        }
    }
}

impl Clone for NetworkIdentity {
    fn clone(&self) -> (r: Self)
        ensures
            r@ == self@,
    {
        NetworkIdentity {
            network_name: self.network_name.clone(),
            network_secret: self.network_secret.clone(),
        }
    }
}

impl NetworkIdentity {
    /// The identity of the network `network_name` with the given secret.
    pub fn new(network_name: &str, network_secret: &str) -> (r: NetworkIdentity)
        ensures
            r@ == (NetworkIdentityView {
                network_name: network_name@,
                network_secret: network_secret@,
            }),
    {
        NetworkIdentity {
            network_name: String::from_str(network_name),
            network_secret: String::from_str(network_secret),
        }
    }
}

/// The desired networking behaviour of one instance.
#[derive(Debug, PartialEq, Eq)]
pub struct Config {
    pub hostname: String,
    pub network_identity: NetworkIdentity,
    pub peers: Vec<Uri>,
    pub listeners: Vec<Uri>,
    pub dhcp: bool,
    pub instance_name: String,
}

/// What a [`Config`] holds, as mathematical values.
pub struct ConfigView {
    pub hostname: Seq<char>,
    pub network_identity: NetworkIdentityView,
    pub peers: Seq<UriView>,
    pub listeners: Seq<UriView>,
    pub dhcp: bool,
    pub instance_name: Seq<char>,
}

impl View for Config {
    type V = ConfigView;

    open spec fn view(&self) -> ConfigView {
        ConfigView {
            hostname: self.hostname@,
            network_identity: self.network_identity@,
            peers: uri_views(self.peers@),
            listeners: uri_views(self.listeners@),
            dhcp: self.dhcp,
            instance_name: self.instance_name@,
        }
    }
}

impl Clone for Config {
    fn clone(&self) -> (r: Self)
        ensures
            r@ == self@,
    {
        Config {
            hostname: self.hostname.clone(),
            network_identity: self.network_identity.clone(),
            peers: clone_uris(&self.peers),
            listeners: clone_uris(&self.listeners),
            dhcp: self.dhcp,
            instance_name: self.instance_name.clone(),
        }
    }
}

/// The configuration that [`create_config`] builds: the host joins the
/// network `test` under the instance name `default`, dials the public relay
/// over TCP and UDP, listens on port 11010 over both, and asks for an
/// address by DHCP.
pub open spec fn default_config() -> ConfigView {
    ConfigView {
        hostname: "开开开问问"@,
        network_identity: NetworkIdentityView { network_name: "test"@, network_secret: "test"@ },
        peers: seq![
            UriView { scheme: "tcp"@, host: "public.easytier.net"@, port: 11010 },
            UriView { scheme: "udp"@, host: "public.easytier.net"@, port: 11010 },
        ],
        listeners: seq![
            UriView { scheme: "tcp"@, host: "0.0.0.0"@, port: 11010 },
            UriView { scheme: "udp"@, host: "0.0.0.0"@, port: 11010 },
        ],
        dhcp: true,
        instance_name: "default"@,
    }
}

/// Builds the default configuration.
pub fn create_config() -> (c: Config)
    ensures
        c@ == default_config(),
{
    let mut peers: Vec<Uri> = Vec::new();
    peers.push(Uri::new("tcp", "public.easytier.net", 11010));
    peers.push(Uri::new("udp", "public.easytier.net", 11010));
    let mut listeners: Vec<Uri> = Vec::new();
    listeners.push(Uri::new("tcp", "0.0.0.0", 11010));
    listeners.push(Uri::new("udp", "0.0.0.0", 11010));
    let c = Config {
        hostname: String::from_str("开开开问问"),
        network_identity: NetworkIdentity::new("test", "test"),
        peers,
        listeners,
        dhcp: true,
        instance_name: String::from_str("default"),
    };
    assert(c@.peers =~= default_config().peers);
    assert(c@.listeners =~= default_config().listeners);
    c
}

} // verus!
