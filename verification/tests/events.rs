use kgui::event::{
    peer_conn_info_to_string, render_event, render_optional_inet, Event, Ipv4Inet, PeerConnInfo,
};

fn conn() -> PeerConnInfo {
    PeerConnInfo { my_peer_id: 1, peer_id: 2, tunnel: String::from("tcp") }
}

fn inet(a: u8, b: u8, c: u8, d: u8, prefix_len: u8) -> Ipv4Inet {
    Ipv4Inet::new([a, b, c, d], prefix_len).unwrap()
}

#[test]
fn ipv4_inet_accepts_prefixes_up_to_32() {
    assert_eq!(
        Ipv4Inet::new([10, 0, 0, 1], 24),
        Some(Ipv4Inet { octets: [10, 0, 0, 1], prefix_len: 24 })
    );
    assert!(Ipv4Inet::new([10, 0, 0, 1], 0).is_some());
    assert!(Ipv4Inet::new([10, 0, 0, 1], 32).is_some());
}

#[test]
fn ipv4_inet_refuses_longer_prefixes() {
    assert_eq!(Ipv4Inet::new([10, 0, 0, 1], 33), None);
    assert_eq!(Ipv4Inet::new([10, 0, 0, 1], 255), None);
}

#[test]
fn ipv4_inet_is_written_dotted_with_prefix() {
    assert_eq!(inet(10, 144, 144, 1, 24).render(), "10.144.144.1/24");
    assert_eq!(inet(0, 0, 0, 0, 0).render(), "0.0.0.0/0");
    assert_eq!(inet(255, 255, 255, 255, 32).render(), "255.255.255.255/32");
}

#[test]
fn optional_inet_is_written_with_its_presence() {
    assert_eq!(render_optional_inet(&None), "None");
    assert_eq!(render_optional_inet(&Some(inet(192, 168, 1, 7, 16))), "Some(192.168.1.7/16)");
}

#[test]
fn peer_conn_info_text() {
    assert_eq!(
        peer_conn_info_to_string(conn()),
        "my_peer_id: 1, dst_peer_id: 2, tunnel_info: tcp"
    );
    let info = PeerConnInfo {
        my_peer_id: 4294967295,
        peer_id: 0,
        tunnel: String::from("Some(TunnelInfo { tunnel_type: \"udp\" })"),
    };
    assert_eq!(
        peer_conn_info_to_string(info),
        "my_peer_id: 4294967295, dst_peer_id: 0, tunnel_info: Some(TunnelInfo { tunnel_type: \"udp\" })"
    );
}

#[test]
fn message_peer_added() {
    assert_eq!(
        render_event(&Event::PeerAdded(42)),
        Some(String::from("新对等节点已添加. 对等节点ID: 42"))
    );
}

#[test]
fn message_peer_removed() {
    assert_eq!(
        render_event(&Event::PeerRemoved(7)),
        Some(String::from("对等节点已移除. 对等节点ID: 7"))
    );
}

#[test]
fn message_peer_conn_added() {
    assert_eq!(
        render_event(&Event::PeerConnAdded(conn())),
        Some(String::from(
            "新对等节点连接已添加. 连接信息: my_peer_id: 1, dst_peer_id: 2, tunnel_info: tcp"
        ))
    );
}

#[test]
fn message_peer_conn_removed() {
    assert_eq!(
        render_event(&Event::PeerConnRemoved(conn())),
        Some(String::from(
            "对等节点连接已移除. 连接信息: my_peer_id: 1, dst_peer_id: 2, tunnel_info: tcp"
        ))
    );
}

#[test]
fn message_listener_added() {
    assert_eq!(
        render_event(&Event::ListenerAdded(String::from("tcp://0.0.0.0:11010"))),
        Some(String::from("新监听器已添加. 监听器: tcp://0.0.0.0:11010"))
    );
}

#[test]
fn address_is_written_as_it_stands() {
    assert_eq!(
        render_event(&Event::ListenerAdded(String::from("wss://example.net/tunnel?x=1"))),
        Some(String::from("新监听器已添加. 监听器: wss://example.net/tunnel?x=1"))
    );
    assert_eq!(
        render_event(&Event::Connecting(String::from("tcp://[::1]"))),
        Some(String::from("正在连接到对等节点. 目标: tcp://[::1]"))
    );
}

#[test]
fn ring_listener_is_passed_over() {
    assert_eq!(render_event(&Event::ListenerAdded(String::from("ring://6f1c2a"))), None);
    assert_eq!(render_event(&Event::ListenerAdded(String::from("ring:"))), None);
    assert_eq!(render_event(&Event::ListenerAdded(String::from("ring:开"))), None);
}

#[test]
fn only_the_exact_ring_scheme_is_passed_over() {
    for address in
        ["Ring://h:1", "rings://h:1", "rin://h:1", "xring://h:1", "ring", "rin", "", ":", "开开", "开开开开开开"]
    {
        assert_eq!(
            render_event(&Event::ListenerAdded(String::from(address))),
            Some(format!("新监听器已添加. 监听器: {}", address)),
            "{:?}",
            address
        );
    }
}

#[test]
fn ring_scheme_matters_for_added_listeners_only() {
    assert_eq!(
        render_event(&Event::ListenerAddFailed(String::from("ring://h"), String::from("busy"))),
        Some(String::from("监听器添加失败. 监听器: ring://h, 消息: busy"))
    );
    assert_eq!(
        render_event(&Event::ListenerAcceptFailed(String::from("ring://h"), String::from("busy"))),
        Some(String::from("监听器接受连接失败. 监听器: ring://h, 消息: busy"))
    );
    assert_eq!(
        render_event(&Event::Connecting(String::from("ring://h"))),
        Some(String::from("正在连接到对等节点. 目标: ring://h"))
    );
}

#[test]
fn message_listener_add_failed() {
    assert_eq!(
        render_event(&Event::ListenerAddFailed(
            String::from("udp://0.0.0.0:11010"),
            String::from("address in use")
        )),
        Some(String::from("监听器添加失败. 监听器: udp://0.0.0.0:11010, 消息: address in use"))
    );
}

#[test]
fn message_listener_accept_failed() {
    assert_eq!(
        render_event(&Event::ListenerAcceptFailed(
            String::from("tcp://0.0.0.0:11010"),
            String::from("too many open files")
        )),
        Some(String::from(
            "监听器接受连接失败. 监听器: tcp://0.0.0.0:11010, 消息: too many open files"
        ))
    );
}

#[test]
fn message_connection_accepted() {
    assert_eq!(
        render_event(&Event::ConnectionAccepted(
            String::from("tcp://10.0.0.1:11010"),
            String::from("tcp://10.0.0.2:40000")
        )),
        Some(String::from("新连接已接受. 本地: tcp://10.0.0.1:11010, 远程: tcp://10.0.0.2:40000"))
    );
}

#[test]
fn message_connection_error() {
    assert_eq!(
        render_event(&Event::ConnectionError(
            String::from("l"),
            String::from("r"),
            String::from("reset")
        )),
        Some(String::from("连接错误. 本地: l, 远程: r, 错误: reset"))
    );
}

#[test]
fn message_tun_device_ready() {
    assert_eq!(
        render_event(&Event::TunDeviceReady(String::from("tun0"))),
        Some(String::from("TUN设备已就绪. 设备: tun0"))
    );
}

#[test]
fn message_tun_device_error() {
    assert_eq!(
        render_event(&Event::TunDeviceError(String::from("permission denied"))),
        Some(String::from("TUN设备错误. 错误: permission denied"))
    );
}

#[test]
fn message_connecting() {
    assert_eq!(
        render_event(&Event::Connecting(String::from("tcp://public.easytier.net:11010"))),
        Some(String::from("正在连接到对等节点. 目标: tcp://public.easytier.net:11010"))
    );
}

#[test]
fn message_connect_error() {
    assert_eq!(
        render_event(&Event::ConnectError(
            String::from("tcp://public.easytier.net:11010"),
            String::from("v4"),
            String::from("timed out")
        )),
        Some(String::from(
            "连接到对等节点错误. 目标: tcp://public.easytier.net:11010, IP版本: v4, 错误: timed out"
        ))
    );
}

#[test]
fn message_vpn_portal_client_connected() {
    assert_eq!(
        render_event(&Event::VpnPortalClientConnected(
            String::from("wg://0.0.0.0:11011"),
            String::from("1.2.3.4:5")
        )),
        Some(String::from("VPN门户客户端已连接. 门户: wg://0.0.0.0:11011, 客户端地址: 1.2.3.4:5"))
    );
}

#[test]
fn message_vpn_portal_client_disconnected() {
    assert_eq!(
        render_event(&Event::VpnPortalClientDisconnected(
            String::from("wg://0.0.0.0:11011"),
            String::from("1.2.3.4:5")
        )),
        Some(String::from(
            "VPN门户客户端已断开连接. 门户: wg://0.0.0.0:11011, 客户端地址: 1.2.3.4:5"
        ))
    );
}

#[test]
fn message_dhcp_ipv4_changed() {
    assert_eq!(
        render_event(&Event::DhcpIpv4Changed(None, Some(inet(10, 126, 126, 1, 24)))),
        Some(String::from("DHCP IPv4地址已更改. 旧地址: None, 新地址: Some(10.126.126.1/24)"))
    );
    assert_eq!(
        render_event(&Event::DhcpIpv4Changed(
            Some(inet(10, 126, 126, 1, 24)),
            Some(inet(10, 126, 126, 2, 24))
        )),
        Some(String::from(
            "DHCP IPv4地址已更改. 旧地址: Some(10.126.126.1/24), 新地址: Some(10.126.126.2/24)"
        ))
    );
}

#[test]
fn message_dhcp_ipv4_conflicted() {
    assert_eq!(
        render_event(&Event::DhcpIpv4Conflicted(Some(inet(10, 126, 126, 1, 24)))),
        Some(String::from("DHCP IPv4地址冲突. 地址: Some(10.126.126.1/24)"))
    );
    assert_eq!(
        render_event(&Event::DhcpIpv4Conflicted(None)),
        Some(String::from("DHCP IPv4地址冲突. 地址: None"))
    );
}

#[test]
fn empty_texts_leave_the_template_alone() {
    assert_eq!(
        render_event(&Event::ConnectionError(String::new(), String::new(), String::new())),
        Some(String::from("连接错误. 本地: , 远程: , 错误: "))
    );
}
