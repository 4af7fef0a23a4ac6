//! The lifecycle events of an instance and the message each one is
//! rendered to.

use vstd::prelude::*;

use crate::text::{decimal, push_decimal};

verus! {

/// An IPv4 address together with the length of its network prefix.
#[derive(Clone, Copy, Debug, PartialEq, Eq)]
pub struct Ipv4Inet {
    pub octets: [u8; 4],
    pub prefix_len: u8,
}

impl Ipv4Inet {
    /// A prefix covers at most the 32 bits of the address.
    pub open spec fn wf(self) -> bool {
        self.prefix_len <= 32
    }

    /// The address in dotted notation, a slash and the prefix length.
    pub open spec fn text(self) -> Seq<char> {
        decimal(self.octets[0] as nat) + "."@ + decimal(self.octets[1] as nat) + "."@ + decimal(
            self.octets[2] as nat,
        ) + "."@ + decimal(self.octets[3] as nat) + "/"@ + decimal(self.prefix_len as nat)
    }

    /// The address `octets` with a prefix of `prefix_len` bits, if the
    /// prefix fits into an address.
    pub fn new(octets: [u8; 4], prefix_len: u8) -> (r: Option<Ipv4Inet>)
        ensures
            r is Some <==> prefix_len <= 32,
            r matches Some(ip) ==> ip.wf() && ip.octets == octets && ip.prefix_len == prefix_len,
    {
        if prefix_len <= 32 {
            Some(Ipv4Inet { octets, prefix_len })
        } else {
            None
        }
    }

    /// Writes the address out as `a.b.c.d/len`.
    pub fn render(&self) -> (s: String)
        ensures
            s@ == self.text(),
    {
        let mut s = String::new();
        push_decimal(&mut s, self.octets[0] as u32);
        s.append(".");
        push_decimal(&mut s, self.octets[1] as u32);
        s.append(".");
        push_decimal(&mut s, self.octets[2] as u32);
        s.append(".");
        push_decimal(&mut s, self.octets[3] as u32);
        s.append("/");
        push_decimal(&mut s, self.prefix_len as u32);
        assert(s@ =~= self.text());
        s
    }
}

/// How an address that may be absent is written: `None`, or the address
/// inside `Some(..)`.
pub open spec fn optional_inet_text(ip: Option<Ipv4Inet>) -> Seq<char> {
    match ip {
        Some(inet) => "Some("@ + inet.text() + ")"@,
        None => "None"@,
    }
}

/// Writes out an address that may be absent.
pub fn render_optional_inet(ip: &Option<Ipv4Inet>) -> (s: String)
    ensures
        s@ == optional_inet_text(*ip),
{
    match ip {
        Some(inet) => {
            let mut s = String::from_str("Some(");
            let body = inet.render();
            s.append(body.as_str());
            s.append(")");
            s
        },
        None => String::from_str("None"),
    }
}

/// One connection to a peer: the two ends and the tunnel that carries it.
#[derive(Debug, PartialEq, Eq)]
pub struct PeerConnInfo {
    pub my_peer_id: u32,
    pub peer_id: u32,
    /// The description of the tunnel, as the engine gives it.
    pub tunnel: String,
}

impl Clone for PeerConnInfo {
    fn clone(&self) -> (r: Self)
        ensures
            r == *self,
    {
        PeerConnInfo {
            my_peer_id: self.my_peer_id,
            peer_id: self.peer_id,
            tunnel: self.tunnel.clone(),
        }
    }
}

/// The text that describes a connection to a peer.
pub open spec fn peer_conn_info_text(p: PeerConnInfo) -> Seq<char> {
    "my_peer_id: "@ + decimal(p.my_peer_id as nat) + ", dst_peer_id: "@ + decimal(
        p.peer_id as nat,
    ) + ", tunnel_info: "@ + p.tunnel@
}

/// Describes a connection to a peer.
pub fn peer_conn_info_to_string(p: PeerConnInfo) -> (s: String)
    ensures
        s@ == peer_conn_info_text(p),
{
    let mut s = String::from_str("my_peer_id: ");
    push_decimal(&mut s, p.my_peer_id);
    s.append(", dst_peer_id: ");
    push_decimal(&mut s, p.peer_id);
    s.append(", tunnel_info: ");
    s.append(p.tunnel.as_str());
    s
}

/// What an instance tells of itself while it runs. An address is held as
/// the engine writes it, scheme first: `tcp://0.0.0.0:11010`.
#[derive(Debug, PartialEq, Eq)]
pub enum Event {
    /// A peer with this identifier joined.
    PeerAdded(u32),
    /// The peer with this identifier left.
    PeerRemoved(u32),
    /// A connection to a peer was set up.
    PeerConnAdded(PeerConnInfo),
    /// A connection to a peer was torn down.
    PeerConnRemoved(PeerConnInfo),
    /// A listener was opened on this address.
    ListenerAdded(String),
    /// No listener could be opened on this address; the reason.
    ListenerAddFailed(String, String),
    /// The listener on this address could not accept a connection; the reason.
    ListenerAcceptFailed(String, String),
    /// A connection was accepted: local and remote address.
    ConnectionAccepted(String, String),
    /// A connection failed: local address, remote address, the error.
    ConnectionError(String, String, String),
    /// The tunnel device of this name is ready.
    TunDeviceReady(String),
    /// The tunnel device failed; the error.
    TunDeviceError(String),
    /// The instance dials this address.
    Connecting(String),
    /// Dialling failed: destination, IP version, the error.
    ConnectError(String, String, String),
    /// A client connected to the VPN portal: portal and client address.
    VpnPortalClientConnected(String, String),
    /// A client left the VPN portal: portal and client address.
    VpnPortalClientDisconnected(String, String),
    /// DHCP changed the address: the old and the new one.
    DhcpIpv4Changed(Option<Ipv4Inet>, Option<Ipv4Inet>),
    /// DHCP found this address taken.
    DhcpIpv4Conflicted(Option<Ipv4Inet>),
}

/// Whether `scheme` is the scheme of `address`: the address begins with it
/// and goes on with a colon.
pub open spec fn has_scheme(address: Seq<char>, scheme: Seq<char>) -> bool {
    (scheme + seq![':']).is_prefix_of(address)
}

/// Whether the relay passes over the event without a message. It does so
/// for a listener on the internal `ring` scheme.
pub open spec fn suppressed(e: Event) -> bool {
    e matches Event::ListenerAdded(addr) && has_scheme(addr@, "ring"@)
}

/// The message that an event is rendered to.
pub open spec fn event_message(e: Event) -> Seq<char> {
    match e {
        Event::PeerAdded(id) => "新对等节点已添加. 对等节点ID: "@ + decimal(id as nat),
        Event::PeerRemoved(id) => "对等节点已移除. 对等节点ID: "@ + decimal(id as nat),
        Event::PeerConnAdded(info) => "新对等节点连接已添加. 连接信息: "@ + peer_conn_info_text(info),
        Event::PeerConnRemoved(info) => "对等节点连接已移除. 连接信息: "@ + peer_conn_info_text(info),
        Event::ListenerAdded(addr) => "新监听器已添加. 监听器: "@ + addr@,
        Event::ListenerAddFailed(addr, msg) => "监听器添加失败. 监听器: "@ + addr@ + ", 消息: "@
            + msg@,
        Event::ListenerAcceptFailed(addr, msg) => "监听器接受连接失败. 监听器: "@ + addr@
            + ", 消息: "@ + msg@,
        Event::ConnectionAccepted(local, remote) => "新连接已接受. 本地: "@ + local@ + ", 远程: "@
            + remote@,
        Event::ConnectionError(local, remote, err) => "连接错误. 本地: "@ + local@ + ", 远程: "@
            + remote@ + ", 错误: "@ + err@,
        Event::TunDeviceReady(dev) => "TUN设备已就绪. 设备: "@ + dev@,
        Event::TunDeviceError(err) => "TUN设备错误. 错误: "@ + err@,
        Event::Connecting(dst) => "正在连接到对等节点. 目标: "@ + dst@,
        Event::ConnectError(dst, ip_version, err) => "连接到对等节点错误. 目标: "@ + dst@
            + ", IP版本: "@ + ip_version@ + ", 错误: "@ + err@,
        Event::VpnPortalClientConnected(portal, client_addr) => "VPN门户客户端已连接. 门户: "@
            + portal@ + ", 客户端地址: "@ + client_addr@,
        Event::VpnPortalClientDisconnected(portal, client_addr) =>
            "VPN门户客户端已断开连接. 门户: "@ + portal@ + ", 客户端地址: "@ + client_addr@,
        Event::DhcpIpv4Changed(old_ip, new_ip) => "DHCP IPv4地址已更改. 旧地址: "@
            + optional_inet_text(old_ip) + ", 新地址: "@ + optional_inet_text(new_ip),
        Event::DhcpIpv4Conflicted(ip) => "DHCP IPv4地址冲突. 地址: "@ + optional_inet_text(ip),
    }
}

fn labelled(label: &str, value: &str) -> (s: String)
    ensures
        s@ == label@ + value@,
{
    let mut s = String::from_str(label);
    s.append(value);
    s
}

fn labelled_pair(label: &str, first: &str, second_label: &str, second: &str) -> (s: String)
    ensures
        s@ == label@ + first@ + second_label@ + second@,
{
    let mut s = labelled(label, first);
    s.append(second_label);
    s.append(second);
    s
}

fn labelled_triple(
    label: &str,
    first: &str,
    second_label: &str,
    second: &str,
    third_label: &str,
    third: &str,
) -> (s: String)
    ensures
        s@ == label@ + first@ + second_label@ + second@ + third_label@ + third@,
{
    let mut s = labelled_pair(label, first, second_label, second);
    s.append(third_label);
    s.append(third);
    s
}

fn is_ring(address: &str) -> (r: bool)
    ensures
        r == has_scheme(address@, "ring"@),
{
    proof {
        reveal_strlit("ring");
        reveal_strlit("ring:");
    }
    assert("ring"@ + seq![':'] =~= "ring:"@);
    if address.unicode_len() < 5 {
        false
    } else {
        let head = String::from_str(address.substring_char(0, 5));
        let ring = String::from_str("ring:");
        head == ring
    }
}

/// Renders an event to its message, or to nothing where the relay passes
/// over it.
pub fn render_event(e: &Event) -> (r: Option<String>)
    ensures
        match r {
            Some(s) => !suppressed(*e) && s@ == event_message(*e),
            None => suppressed(*e),
        },
{
    match e {
        Event::PeerAdded(id) => {
            let mut s = String::from_str("新对等节点已添加. 对等节点ID: ");
            push_decimal(&mut s, *id);
            Some(s)
        },
        Event::PeerRemoved(id) => {
            let mut s = String::from_str("对等节点已移除. 对等节点ID: ");
            push_decimal(&mut s, *id);
            Some(s)
        },
        Event::PeerConnAdded(info) => {
            let text = peer_conn_info_to_string(info.clone());
            Some(labelled("新对等节点连接已添加. 连接信息: ", text.as_str()))
        },
        Event::PeerConnRemoved(info) => {
            let text = peer_conn_info_to_string(info.clone());
            Some(labelled("对等节点连接已移除. 连接信息: ", text.as_str()))
        },
        Event::ListenerAdded(addr) => {
            if is_ring(addr.as_str()) {
                None
            } else {
                Some(labelled("新监听器已添加. 监听器: ", addr.as_str()))
            }
        },
        Event::ListenerAddFailed(addr, msg) => Some(
            labelled_pair("监听器添加失败. 监听器: ", addr.as_str(), ", 消息: ", msg.as_str()),
        ),
        Event::ListenerAcceptFailed(addr, msg) => Some(
            labelled_pair(
                "监听器接受连接失败. 监听器: ",
                addr.as_str(),
                ", 消息: ",
                msg.as_str(),
            ),
        ),
        Event::ConnectionAccepted(local, remote) => Some(
            labelled_pair("新连接已接受. 本地: ", local.as_str(), ", 远程: ", remote.as_str()),
        ),
        Event::ConnectionError(local, remote, err) => Some(
            labelled_triple(
                "连接错误. 本地: ",
                local.as_str(),
                ", 远程: ",
                remote.as_str(),
                ", 错误: ",
                err.as_str(),
            ),
        ),
        Event::TunDeviceReady(dev) => Some(labelled("TUN设备已就绪. 设备: ", dev.as_str())),
        Event::TunDeviceError(err) => Some(labelled("TUN设备错误. 错误: ", err.as_str())),
        Event::Connecting(dst) => Some(labelled("正在连接到对等节点. 目标: ", dst.as_str())),
        Event::ConnectError(dst, ip_version, err) => Some(
            labelled_triple(
                "连接到对等节点错误. 目标: ",
                dst.as_str(),
                ", IP版本: ",
                ip_version.as_str(),
                ", 错误: ",
                err.as_str(),
            ),
        ),
        Event::VpnPortalClientConnected(portal, client_addr) => Some(
            labelled_pair(
                "VPN门户客户端已连接. 门户: ",
                portal.as_str(),
                ", 客户端地址: ",
                client_addr.as_str(),
            ),
        ),
        Event::VpnPortalClientDisconnected(portal, client_addr) => Some(
            labelled_pair(
                "VPN门户客户端已断开连接. 门户: ",
                portal.as_str(),
                ", 客户端地址: ",
                client_addr.as_str(),
            ),
        ),
        Event::DhcpIpv4Changed(old_ip, new_ip) => {
            let old_text = render_optional_inet(old_ip);
            let new_text = render_optional_inet(new_ip);
            Some(
                labelled_pair(
                    "DHCP IPv4地址已更改. 旧地址: ",
                    old_text.as_str(),
                    ", 新地址: ",
                    new_text.as_str(),
                ),
            )
        },
        Event::DhcpIpv4Conflicted(ip) => {
            let text = render_optional_inet(ip);
            Some(labelled("DHCP IPv4地址冲突. 地址: ", text.as_str()))
        },
    }
}

} // verus!
