use aquatic::peer_id::{PeerClient, PeerId};

fn create_peer_id(bytes: &[u8]) -> PeerId {
    let mut peer_id = PeerId([0; 20]);

    let len = bytes.len();

    peer_id.0[..len].copy_from_slice(bytes);

    peer_id
}

#[test]
fn test_client_from_peer_id() {
    assert_eq!(
        PeerClient::from_peer_id(&create_peer_id(b"-lt1234-k/asdh3")),
        PeerClient::LibTorrentRakshasa("1.23.4".into())
    );
    assert_eq!(
        PeerClient::from_peer_id(&create_peer_id(b"-DE123s-k/asdh3")),
        PeerClient::Deluge("1.2.3 stable".into())
    );
    assert_eq!(
        PeerClient::from_peer_id(&create_peer_id(b"-DE123r-k/asdh3")),
        PeerClient::Deluge("1.2.3 rc".into())
    );
    assert_eq!(
        PeerClient::from_peer_id(&create_peer_id(b"-UT123A-k/asdh3")),
        PeerClient::UTorrent("1.2.3 alpha".into())
    );
    assert_eq!(
        PeerClient::from_peer_id(&create_peer_id(b"-TR0012-k/asdh3")),
        PeerClient::Transmission("0.12".into())
    );
    assert_eq!(
        PeerClient::from_peer_id(&create_peer_id(b"-TR1212-k/asdh3")),
        PeerClient::Transmission("1.21".into())
    );
    assert_eq!(
        PeerClient::from_peer_id(&create_peer_id(b"-WW0102-k/asdh3")),
        PeerClient::WebTorrent("1.2".into())
    );
    assert_eq!(
        PeerClient::from_peer_id(&create_peer_id(b"-WW1302-k/asdh3")),
        PeerClient::WebTorrent("13.2".into())
    );
    assert_eq!(
        PeerClient::from_peer_id(&create_peer_id(b"-WW1324-k/asdh3")),
        PeerClient::WebTorrent("13.24".into())
    );
    assert_eq!(
        PeerClient::from_peer_id(&create_peer_id(b"M1-2-3--k/asdh3")),
        PeerClient::Mainline("1.2.3".into())
    );
    assert_eq!(
        PeerClient::from_peer_id(&create_peer_id(b"M1-23-4-k/asdh3")),
        PeerClient::Mainline("1.23.4".into())
    );
    assert_eq!(
        PeerClient::from_peer_id(&create_peer_id(b"S3-k/asdh3")),
        PeerClient::OtherWithPrefix("S3".into())
    );
}

#[test]
fn client_other_without_prefix() {
    assert_eq!(
        PeerClient::from_peer_id(&create_peer_id(b"")),
        PeerClient::Other
    );
}

#[test]
fn client_from_prefix_and_version_other_kinds() {
    assert_eq!(
        PeerClient::from_prefix_and_version(b"AZ", b"1234"),
        PeerClient::Vuze("1.2.3.4".into())
    );
    assert_eq!(
        PeerClient::from_prefix_and_version(b"qB", b"4512"),
        PeerClient::QBitTorrent("4.5.1".into())
    );
    assert_eq!(
        PeerClient::from_prefix_and_version(b"TR", b"0003"),
        PeerClient::Transmission("0.3".into())
    );
    assert_eq!(
        PeerClient::from_prefix_and_version(b"BT", b"123x"),
        PeerClient::BitTorrent("1.2.3x".into())
    );
    assert_eq!(
        PeerClient::from_prefix_and_version(b"XX", b"12"),
        PeerClient::OtherWithPrefixAndVersion {
            prefix: "XX".into(),
            version: "12".into()
        }
    );
}

#[test]
fn client_texts() {
    assert_eq!(
        PeerClient::Deluge("1.2.3 rc".into()).to_string(),
        "Deluge 1.2.3 rc"
    );
    assert_eq!(
        PeerClient::UTorrentMac("3.4.5 beta".into()).to_string(),
        "µTorrent Mac 3.4.5 beta"
    );
    assert_eq!(
        PeerClient::OtherWithPrefixAndVersion {
            prefix: "ab".into(),
            version: "cd".into()
        }
        .to_string(),
        "Other (ab) (cd)"
    );
    assert_eq!(PeerClient::OtherWithPrefix("S3".into()).to_string(), "Other (S3)");
    assert_eq!(PeerClient::Other.to_string(), "Other");
}

#[test]
fn peer_id_first_8_bytes_hex() {
    let peer_id = create_peer_id(b"-lt1234-k/asdh3");
    assert_eq!(peer_id.first_8_bytes_hex(), "2d6c74313233342d");
    assert_eq!(
        peer_id.client(),
        PeerClient::LibTorrentRakshasa("1.23.4".into())
    );
}
