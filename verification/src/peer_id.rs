//! Peer ids, and the BitTorrent client that a peer id names.

use vstd::prelude::*;

use crate::text::{lossy_text, push_char, string_from_bytes_as_chars, string_from_utf8_lossy};

verus! {

#[derive(Debug, Clone, Copy, PartialEq, Eq, PartialOrd, Ord, Hash)]
pub struct PeerId(pub [u8; 20]);

/// What a regular expression captures in the haystack, as three calls of
/// the `regex` crate give it together: the pattern compiled
/// (`regex::bytes::Regex::new`; nothing for an invalid pattern), its first
/// match in the haystack (`Regex::captures`; nothing without a match), and
/// the bytes of the two named groups of that match (`Captures::name`;
/// nothing where a group takes no part)
pub uninterp spec fn regex_captures_of(
    pattern: Seq<char>,
    haystack: Seq<u8>,
    first: Seq<char>,
    second: Seq<char>,
) -> Option<(Seq<u8>, Seq<u8>)>;

/// Compiles the pattern (`regex::bytes::Regex::new`) and captures the two
/// named groups of its first match in the haystack (`Regex::captures`,
/// `Captures::name`). Gives nothing for an invalid pattern, no match, or a
/// group that takes no part.
#[verifier::external_body]
pub(crate) fn regex_captures(pattern: &str, haystack: &[u8], first: &str, second: &str) -> (r: Option<(Vec<u8>, Vec<u8>)>)
    ensures
        match (r, regex_captures_of(pattern@, haystack@, first@, second@)) {
            (Some((a, b)), Some((x, y))) => a@ == x && b@ == y,
            (None, None) => true,
            _ => false,
        },
{
    let re = regex::bytes::Regex::new(pattern).ok()?;
    let caps = re.captures(haystack)?;
    let a = caps.name(first)?.as_bytes().to_vec();
    let b = caps.name(second)?.as_bytes().to_vec();
    Some((a, b))
}

/// The lowercase hex digits of the bytes, two per byte, high digit first
pub open spec fn hex_lower(bytes: Seq<u8>) -> Seq<u8> {
    Seq::new(
        2 * bytes.len(),
        |i: int|
            {
                let b = bytes[i / 2];
                let d = if i % 2 == 0 { b / 16 } else { b % 16 };
                if d < 10 { (0x30 + d) as u8 } else { (0x61 + d - 10) as u8 }
            },
    )
}

/// `hex::encode_to_slice` of eight bytes into sixteen: the lowercase hex
/// digits. The output has the size that the function asks for, so it does
/// not fail.
#[verifier::external_body]
fn hex_encode_8(input: &[u8; 8]) -> (r: [u8; 16])
    ensures
        r@ == hex_lower(input@),
{
    let mut buf = [0u8; 16];
    hex::encode_to_slice(input, &mut buf).unwrap();
    buf
}

/// The client that a peer id names, with its version where it has one
#[derive(Debug, Clone, PartialEq, Eq, PartialOrd, Ord, Hash)]
pub enum PeerClient {
    BitTorrent(String),
    Deluge(String),
    LibTorrentRakshasa(String),
    LibTorrentRasterbar(String),
    QBitTorrent(String),
    Transmission(String),
    UTorrent(String),
    UTorrentEmbedded(String),
    UTorrentMac(String),
    UTorrentWeb(String),
    Vuze(String),
    WebTorrent(String),
    WebTorrentDesktop(String),
    Mainline(String),
    OtherWithPrefixAndVersion { prefix: String, version: String },
    OtherWithPrefix(String),
    Other,
}

/// A peer client with its texts as character sequences
pub enum PeerClientView {
    BitTorrent(Seq<char>),
    Deluge(Seq<char>),
    LibTorrentRakshasa(Seq<char>),
    LibTorrentRasterbar(Seq<char>),
    QBitTorrent(Seq<char>),
    Transmission(Seq<char>),
    UTorrent(Seq<char>),
    UTorrentEmbedded(Seq<char>),
    UTorrentMac(Seq<char>),
    UTorrentWeb(Seq<char>),
    Vuze(Seq<char>),
    WebTorrent(Seq<char>),
    WebTorrentDesktop(Seq<char>),
    Mainline(Seq<char>),
    OtherWithPrefixAndVersion { prefix: Seq<char>, version: Seq<char> },
    OtherWithPrefix(Seq<char>),
    Other,
}

/// The character of a byte of its code
pub open spec fn byte_char(b: u8) -> char {
    b as char
}

/// Three version digits and the prerelease kind: "1.2.3 stable" for
/// '1', '2', '3', 's'
pub open spec fn three_digits_plus_prerelease(v1: char, v2: char, v3: char, v4: char) -> Seq<char> {
    seq![v1, '.', v2, '.', v3] + if v4 == 'd' || v4 == 'D' {
        " dev"@
    } else if v4 == 'a' || v4 == 'A' {
        " alpha"@
    } else if v4 == 'b' || v4 == 'B' {
        " beta"@
    } else if v4 == 'r' || v4 == 'R' {
        " rc"@
    } else if v4 == 's' || v4 == 'S' {
        " stable"@
    } else {
        seq![v4]
    }
}

/// A WebTorrent version: two-digit major and minor numbers without a
/// leading zero, "13.2" for '1', '3', '0', '2'
pub open spec fn webtorrent_version(v1: char, v2: char, v3: char, v4: char) -> Seq<char> {
    (if v1 == '0' { seq![v2] } else { seq![v1, v2] }) + seq!['.'] + (if v3 == '0' { seq![v4] } else { seq![v3, v4] })
}

/// A Transmission version: "0.12" for '0', '0', '1', '2', "1.21" for
/// '1', '2', '1', '2'
pub open spec fn transmission_version(v1: char, v2: char, v3: char, v4: char) -> Seq<char> {
    if v1 == '0' && v2 == '0' && v3 == '0' {
        seq!['0', '.', v4]
    } else if v1 == '0' && v2 == '0' {
        seq!['0', '.', v3, v4]
    } else {
        seq![v1, '.', v2, v3]
    }
}

/// The client of a peer id prefix and version: the known prefixes with a
/// four-byte version, the mainline forms "1-2-3-" and "1-23-4", and any
/// other prefix and version as they are
pub open spec fn client_of(prefix: Seq<u8>, version: Seq<u8>) -> PeerClientView {
    if version.len() == 4 {
        let (v1, v2, v3, v4) = (
            byte_char(version[0]),
            byte_char(version[1]),
            byte_char(version[2]),
            byte_char(version[3]),
        );
        if prefix == seq![0x41u8, 0x5au8] {
            PeerClientView::Vuze(seq![v1, '.', v2, '.', v3, '.', v4])
        } else if prefix == seq![0x42u8, 0x54u8] {
            PeerClientView::BitTorrent(three_digits_plus_prerelease(v1, v2, v3, v4))
        } else if prefix == seq![0x44u8, 0x45u8] {
            PeerClientView::Deluge(three_digits_plus_prerelease(v1, v2, v3, v4))
        } else if prefix == seq![0x6cu8, 0x74u8] {
            PeerClientView::LibTorrentRakshasa(seq![v1, '.', v2, v3, '.', v4])
        } else if prefix == seq![0x4cu8, 0x54u8] {
            PeerClientView::LibTorrentRasterbar(seq![v1, '.', v2, v3, '.', v4])
        } else if prefix == seq![0x71u8, 0x42u8] {
            PeerClientView::QBitTorrent(seq![v1, '.', v2, '.', v3])
        } else if prefix == seq![0x54u8, 0x52u8] {
            PeerClientView::Transmission(transmission_version(v1, v2, v3, v4))
        } else if prefix == seq![0x55u8, 0x45u8] {
            PeerClientView::UTorrentEmbedded(three_digits_plus_prerelease(v1, v2, v3, v4))
        } else if prefix == seq![0x55u8, 0x4du8] {
            PeerClientView::UTorrentMac(three_digits_plus_prerelease(v1, v2, v3, v4))
        } else if prefix == seq![0x55u8, 0x54u8] {
            PeerClientView::UTorrent(three_digits_plus_prerelease(v1, v2, v3, v4))
        } else if prefix == seq![0x55u8, 0x57u8] {
            PeerClientView::UTorrentWeb(three_digits_plus_prerelease(v1, v2, v3, v4))
        } else if prefix == seq![0x57u8, 0x44u8] {
            PeerClientView::WebTorrentDesktop(webtorrent_version(v1, v2, v3, v4))
        } else if prefix == seq![0x57u8, 0x57u8] {
            PeerClientView::WebTorrent(webtorrent_version(v1, v2, v3, v4))
        } else {
            PeerClientView::OtherWithPrefixAndVersion { prefix: lossy_text(prefix), version: lossy_text(version) }
        }
    } else if prefix == seq![0x4du8] && version.len() == 6 && version[1] == 0x2d && version[3] == 0x2d
        && version[5] == 0x2d {
        PeerClientView::Mainline(
            seq![byte_char(version[0]), '.', byte_char(version[2]), '.', byte_char(version[4])],
        )
    } else if prefix == seq![0x4du8] && version.len() == 6 && version[1] == 0x2d && version[4] == 0x2d {
        PeerClientView::Mainline(
            seq![byte_char(version[0]), '.', byte_char(version[2]), byte_char(version[3]), '.', byte_char(version[5])],
        )
    } else {
        PeerClientView::OtherWithPrefixAndVersion { prefix: lossy_text(prefix), version: lossy_text(version) }
    }
}

/// The bytes of ASCII text
pub open spec fn ascii_bytes(s: Seq<char>) -> Seq<u8> {
    s.map_values(|c: char| c as u8)
}

/// The two-letter client names of Azureus-style peer ids, each with a
/// four-character version, name the clients as the BitTorrent client
/// registry has them; the letter case tells "lt" (libtorrent by rakshasa)
/// from "LT" (libtorrent rasterbar), whose versions read major, two-digit
/// minor, patch. A known name with a version of another length, or an
/// unknown name, names no known client.
pub proof fn law_client_names(version: Seq<u8>)
    ensures
        version.len() == 4 ==> {
            &&& client_of(ascii_bytes("AZ"@), version) is Vuze
            &&& client_of(ascii_bytes("BT"@), version) is BitTorrent
            &&& client_of(ascii_bytes("DE"@), version) is Deluge
            &&& client_of(ascii_bytes("lt"@), version) == PeerClientView::LibTorrentRakshasa(
                seq![version[0] as char, '.', version[1] as char, version[2] as char, '.', version[3] as char],
            )
            &&& client_of(ascii_bytes("LT"@), version) == PeerClientView::LibTorrentRasterbar(
                seq![version[0] as char, '.', version[1] as char, version[2] as char, '.', version[3] as char],
            )
            &&& client_of(ascii_bytes("qB"@), version) is QBitTorrent
            &&& client_of(ascii_bytes("TR"@), version) is Transmission
            &&& client_of(ascii_bytes("UE"@), version) is UTorrentEmbedded
            &&& client_of(ascii_bytes("UM"@), version) is UTorrentMac
            &&& client_of(ascii_bytes("UT"@), version) is UTorrent
            &&& client_of(ascii_bytes("UW"@), version) is UTorrentWeb
            &&& client_of(ascii_bytes("WD"@), version) is WebTorrentDesktop
            &&& client_of(ascii_bytes("WW"@), version) is WebTorrent
            &&& client_of(ascii_bytes("XX"@), version) is OtherWithPrefixAndVersion
        },
        version.len() != 4 && version.len() != 6 ==> client_of(ascii_bytes("LT"@), version) is OtherWithPrefixAndVersion,
{
    reveal_strlit("AZ");
    reveal_strlit("BT");
    reveal_strlit("DE");
    reveal_strlit("lt");
    reveal_strlit("LT");
    reveal_strlit("qB");
    reveal_strlit("TR");
    reveal_strlit("UE");
    reveal_strlit("UM");
    reveal_strlit("UT");
    reveal_strlit("UW");
    reveal_strlit("WD");
    reveal_strlit("WW");
    reveal_strlit("XX");
    assert(ascii_bytes("AZ"@) =~= seq![0x41u8, 0x5au8]);
    assert(ascii_bytes("BT"@) =~= seq![0x42u8, 0x54u8]);
    assert(ascii_bytes("DE"@) =~= seq![0x44u8, 0x45u8]);
    assert(ascii_bytes("lt"@) =~= seq![0x6cu8, 0x74u8]);
    assert(ascii_bytes("LT"@) =~= seq![0x4cu8, 0x54u8]);
    assert(ascii_bytes("qB"@) =~= seq![0x71u8, 0x42u8]);
    assert(ascii_bytes("TR"@) =~= seq![0x54u8, 0x52u8]);
    assert(ascii_bytes("UE"@) =~= seq![0x55u8, 0x45u8]);
    assert(ascii_bytes("UM"@) =~= seq![0x55u8, 0x4du8]);
    assert(ascii_bytes("UT"@) =~= seq![0x55u8, 0x54u8]);
    assert(ascii_bytes("UW"@) =~= seq![0x55u8, 0x57u8]);
    assert(ascii_bytes("WD"@) =~= seq![0x57u8, 0x44u8]);
    assert(ascii_bytes("WW"@) =~= seq![0x57u8, 0x57u8]);
    assert(ascii_bytes("XX"@) =~= seq![0x58u8, 0x58u8]);
    let xx = ascii_bytes("XX"@);
    assert(xx != seq![0x41u8, 0x5au8] && xx != seq![0x42u8, 0x54u8] && xx != seq![0x44u8, 0x45u8]) by {
        assert(xx[0] == 0x58u8);
    }
    assert(xx[0] == 0x58u8);
    assert(ascii_bytes("LT"@) != seq![0x4du8]);
}

/// The pattern of Azureus-style peer ids: "-", a two-letter client name,
/// three digits and a digit or letter
pub open spec fn az_pattern() -> Seq<char> {
    "^\\-(?P<name>[a-zA-Z]{2})(?P<version>[0-9]{3}[0-9a-zA-Z])"@
}

/// The pattern of mainline peer ids: a letter, six digits or dashes and a
/// dash
pub open spec fn mainline_pattern() -> Seq<char> {
    "^(?P<name>[a-zA-Z])(?P<version>[0-9\\-]{6})\\-"@
}

/// The pattern of other peer ids with a prefix: letters, digits and
/// dashes, then a dash
pub open spec fn prefix_pattern() -> Seq<char> {
    "^(?P<prefix>[a-zA-Z0-9\\-]+)\\-"@
}

/// The client of a peer id: the first of the Azureus-style, mainline and
/// prefix patterns that matches decides
pub open spec fn client_of_peer_id(peer_id: Seq<u8>) -> PeerClientView {
    match regex_captures_of(az_pattern(), peer_id, "name"@, "version"@) {
        Some((name, version)) => client_of(name, version),
        None => match regex_captures_of(mainline_pattern(), peer_id, "name"@, "version"@) {
            Some((name, version)) => client_of(name, version),
            None => match regex_captures_of(prefix_pattern(), peer_id, "prefix"@, "prefix"@) {
                Some((prefix, _)) => PeerClientView::OtherWithPrefix(lossy_text(prefix)),
                None => PeerClientView::Other,
            },
        },
    }
}

/// The text of a peer client
pub open spec fn client_text(c: PeerClientView) -> Seq<char> {
    match c {
        PeerClientView::BitTorrent(v) => "BitTorrent "@ + v,
        PeerClientView::Deluge(v) => "Deluge "@ + v,
        PeerClientView::LibTorrentRakshasa(v) => "lt (rakshasa) "@ + v,
        PeerClientView::LibTorrentRasterbar(v) => "lt (rasterbar) "@ + v,
        PeerClientView::QBitTorrent(v) => "QBitTorrent "@ + v,
        PeerClientView::Transmission(v) => "Transmission "@ + v,
        PeerClientView::UTorrent(v) => "µTorrent "@ + v,
        PeerClientView::UTorrentEmbedded(v) => "µTorrent Emb. "@ + v,
        PeerClientView::UTorrentMac(v) => "µTorrent Mac "@ + v,
        PeerClientView::UTorrentWeb(v) => "µTorrent Web "@ + v,
        PeerClientView::Vuze(v) => "Vuze "@ + v,
        PeerClientView::WebTorrent(v) => "WebTorrent "@ + v,
        PeerClientView::WebTorrentDesktop(v) => "WebTorrent Desktop "@ + v,
        PeerClientView::Mainline(v) => "Mainline "@ + v,
        PeerClientView::OtherWithPrefixAndVersion { prefix, version } => "Other ("@ + prefix + ") ("@ + version
            + ")"@,
        PeerClientView::OtherWithPrefix(prefix) => "Other ("@ + prefix + ")"@,
        PeerClientView::Other => "Other"@,
    }
}

fn string_of_chars(chars: &[char]) -> (r: String)
    ensures
        r@ == chars@,
{
    let mut s = String::new();
    let mut i: usize = 0;
    while i < chars.len()
        invariant
            i <= chars@.len(),
            s@ == chars@.take(i as int),
        decreases chars@.len() - i,
    {
        push_char(&mut s, chars[i]);
        proof {
            assert(s@ =~= chars@.take(i + 1));
        }
        i = i + 1;
    }
    proof {
        assert(chars@.take(chars@.len() as int) =~= chars@);
    }
    s
}

fn three_digits_plus_prerelease_string(v1: char, v2: char, v3: char, v4: char) -> (r: String)
    ensures
        r@ == three_digits_plus_prerelease(v1, v2, v3, v4),
{
    let mut s = string_of_chars(&[v1, '.', v2, '.', v3]);
    proof {
        reveal_strlit(" dev");
        reveal_strlit(" alpha");
        reveal_strlit(" beta");
        reveal_strlit(" rc");
        reveal_strlit(" stable");
    }
    if v4 == 'd' || v4 == 'D' {
        s.append(" dev");
    } else if v4 == 'a' || v4 == 'A' {
        s.append(" alpha");
    } else if v4 == 'b' || v4 == 'B' {
        s.append(" beta");
    } else if v4 == 'r' || v4 == 'R' {
        s.append(" rc");
    } else if v4 == 's' || v4 == 'S' {
        s.append(" stable");
    } else {
        push_char(&mut s, v4);
    }
    proof {
        assert(s@ =~= three_digits_plus_prerelease(v1, v2, v3, v4));
    }
    s
}

fn webtorrent_string(v1: char, v2: char, v3: char, v4: char) -> (r: String)
    ensures
        r@ == webtorrent_version(v1, v2, v3, v4),
{
    let mut s = String::new();
    if v1 != '0' {
        push_char(&mut s, v1);
    }
    push_char(&mut s, v2);
    push_char(&mut s, '.');
    if v3 != '0' {
        push_char(&mut s, v3);
    }
    push_char(&mut s, v4);
    proof {
        assert(s@ =~= webtorrent_version(v1, v2, v3, v4));
    }
    s
}

impl PeerClient {
    pub open spec fn view(&self) -> PeerClientView {
        match self {
            PeerClient::BitTorrent(v) => PeerClientView::BitTorrent(v@),
            PeerClient::Deluge(v) => PeerClientView::Deluge(v@),
            PeerClient::LibTorrentRakshasa(v) => PeerClientView::LibTorrentRakshasa(v@),
            PeerClient::LibTorrentRasterbar(v) => PeerClientView::LibTorrentRasterbar(v@),
            PeerClient::QBitTorrent(v) => PeerClientView::QBitTorrent(v@),
            PeerClient::Transmission(v) => PeerClientView::Transmission(v@),
            PeerClient::UTorrent(v) => PeerClientView::UTorrent(v@),
            PeerClient::UTorrentEmbedded(v) => PeerClientView::UTorrentEmbedded(v@),
            PeerClient::UTorrentMac(v) => PeerClientView::UTorrentMac(v@),
            PeerClient::UTorrentWeb(v) => PeerClientView::UTorrentWeb(v@),
            PeerClient::Vuze(v) => PeerClientView::Vuze(v@),
            PeerClient::WebTorrent(v) => PeerClientView::WebTorrent(v@),
            PeerClient::WebTorrentDesktop(v) => PeerClientView::WebTorrentDesktop(v@),
            PeerClient::Mainline(v) => PeerClientView::Mainline(v@),
            PeerClient::OtherWithPrefixAndVersion { prefix, version } => PeerClientView::OtherWithPrefixAndVersion {
                prefix: prefix@,
                version: version@,
            },
            PeerClient::OtherWithPrefix(prefix) => PeerClientView::OtherWithPrefix(prefix@),
            PeerClient::Other => PeerClientView::Other,
        }
    }

    /// The client of a peer id's prefix and version
    pub fn from_prefix_and_version(prefix: &[u8], version: &[u8]) -> (r: Self)
        ensures
            r@ == client_of(prefix@, version@),
    {
        if version.len() == 4 {
            let (v1, v2, v3, v4) = (version[0] as char, version[1] as char, version[2] as char, version[3] as char);
            let p = prefix;
            let two = p.len() == 2;
            if two && p[0] == 0x41 && p[1] == 0x5a {
                proof {
                    assert(prefix@ =~= seq![0x41u8, 0x5au8]);
                }
                Self::Vuze(string_of_chars(&[v1, '.', v2, '.', v3, '.', v4]))
            } else if two && p[0] == 0x42 && p[1] == 0x54 {
                proof {
                    assert(prefix@ =~= seq![0x42u8, 0x54u8]);
                }
                Self::BitTorrent(three_digits_plus_prerelease_string(v1, v2, v3, v4))
            } else if two && p[0] == 0x44 && p[1] == 0x45 {
                proof {
                    assert(prefix@ =~= seq![0x44u8, 0x45u8]);
                }
                Self::Deluge(three_digits_plus_prerelease_string(v1, v2, v3, v4))
            } else if two && p[0] == 0x6c && p[1] == 0x74 {
                proof {
                    assert(prefix@ =~= seq![0x6cu8, 0x74u8]);
                }
                Self::LibTorrentRakshasa(string_of_chars(&[v1, '.', v2, v3, '.', v4]))
            } else if two && p[0] == 0x4c && p[1] == 0x54 {
                proof {
                    assert(prefix@ =~= seq![0x4cu8, 0x54u8]);
                }
                Self::LibTorrentRasterbar(string_of_chars(&[v1, '.', v2, v3, '.', v4]))
            } else if two && p[0] == 0x71 && p[1] == 0x42 {
                proof {
                    assert(prefix@ =~= seq![0x71u8, 0x42u8]);
                }
                Self::QBitTorrent(string_of_chars(&[v1, '.', v2, '.', v3]))
            } else if two && p[0] == 0x54 && p[1] == 0x52 {
                proof {
                    assert(prefix@ =~= seq![0x54u8, 0x52u8]);
                }
                let v = if v1 == '0' && v2 == '0' && v3 == '0' {
                    string_of_chars(&['0', '.', v4])
                } else if v1 == '0' && v2 == '0' {
                    string_of_chars(&['0', '.', v3, v4])
                } else {
                    string_of_chars(&[v1, '.', v2, v3])
                };
                Self::Transmission(v)
            } else if two && p[0] == 0x55 && p[1] == 0x45 {
                proof {
                    assert(prefix@ =~= seq![0x55u8, 0x45u8]);
                }
                Self::UTorrentEmbedded(three_digits_plus_prerelease_string(v1, v2, v3, v4))
            } else if two && p[0] == 0x55 && p[1] == 0x4d {
                proof {
                    assert(prefix@ =~= seq![0x55u8, 0x4du8]);
                }
                Self::UTorrentMac(three_digits_plus_prerelease_string(v1, v2, v3, v4))
            } else if two && p[0] == 0x55 && p[1] == 0x54 {
                proof {
                    assert(prefix@ =~= seq![0x55u8, 0x54u8]);
                }
                Self::UTorrent(three_digits_plus_prerelease_string(v1, v2, v3, v4))
            } else if two && p[0] == 0x55 && p[1] == 0x57 {
                proof {
                    assert(prefix@ =~= seq![0x55u8, 0x57u8]);
                }
                Self::UTorrentWeb(three_digits_plus_prerelease_string(v1, v2, v3, v4))
            } else if two && p[0] == 0x57 && p[1] == 0x44 {
                proof {
                    assert(prefix@ =~= seq![0x57u8, 0x44u8]);
                }
                Self::WebTorrentDesktop(webtorrent_string(v1, v2, v3, v4))
            } else if two && p[0] == 0x57 && p[1] == 0x57 {
                proof {
                    assert(prefix@ =~= seq![0x57u8, 0x57u8]);
                }
                Self::WebTorrent(webtorrent_string(v1, v2, v3, v4))
            } else {
                proof {
                    assert(prefix@.len() == 2 ==> prefix@ =~= seq![prefix@[0], prefix@[1]]);
                }
                Self::OtherWithPrefixAndVersion {
                    prefix: string_from_utf8_lossy(prefix),
                    version: string_from_utf8_lossy(version),
                }
            }
        } else if prefix.len() == 1 && prefix[0] == 0x4d && version.len() == 6 && version[1] == 0x2d
            && version[3] == 0x2d && version[5] == 0x2d {
            proof {
                assert(prefix@ =~= seq![0x4du8]);
            }
            Self::Mainline(
                string_of_chars(&[version[0] as char, '.', version[2] as char, '.', version[4] as char]),
            )
        } else if prefix.len() == 1 && prefix[0] == 0x4d && version.len() == 6 && version[1] == 0x2d
            && version[4] == 0x2d {
            proof {
                assert(prefix@ =~= seq![0x4du8]);
            }
            Self::Mainline(
                string_of_chars(
                    &[version[0] as char, '.', version[2] as char, version[3] as char, '.', version[5] as char],
                ),
            )
        } else {
            proof {
                assert(prefix@.len() == 1 ==> prefix@ =~= seq![prefix@[0]]);
            }
            Self::OtherWithPrefixAndVersion {
                prefix: string_from_utf8_lossy(prefix),
                version: string_from_utf8_lossy(version),
            }
        }
    }

    /// The client that a peer id names
    pub fn from_peer_id(peer_id: &PeerId) -> (r: Self)
        ensures
            r@ == client_of_peer_id(peer_id.0@),
    {
        let id: &[u8] = &peer_id.0;
        match regex_captures(
            "^\\-(?P<name>[a-zA-Z]{2})(?P<version>[0-9]{3}[0-9a-zA-Z])",
            id,
            "name",
            "version",
        ) {
            Some((name, version)) => {
                return Self::from_prefix_and_version(name.as_slice(), version.as_slice());
            },
            None => {},
        }
        match regex_captures("^(?P<name>[a-zA-Z])(?P<version>[0-9\\-]{6})\\-", id, "name", "version") {
            Some((name, version)) => {
                return Self::from_prefix_and_version(name.as_slice(), version.as_slice());
            },
            None => {},
        }
        match regex_captures("^(?P<prefix>[a-zA-Z0-9\\-]+)\\-", id, "prefix", "prefix") {
            Some((prefix, _)) => Self::OtherWithPrefix(string_from_utf8_lossy(prefix.as_slice())),
            None => Self::Other,
        }
    }

    /// The text of the client: its name and version
    pub fn to_string(&self) -> (r: String)
        ensures
            r@ == client_text(self@),
    {
        let (name, value): (&str, Option<&String>) = match self {
            Self::BitTorrent(v) => ("BitTorrent ", Some(v)),
            Self::Deluge(v) => ("Deluge ", Some(v)),
            Self::LibTorrentRakshasa(v) => ("lt (rakshasa) ", Some(v)),
            Self::LibTorrentRasterbar(v) => ("lt (rasterbar) ", Some(v)),
            Self::QBitTorrent(v) => ("QBitTorrent ", Some(v)),
            Self::Transmission(v) => ("Transmission ", Some(v)),
            Self::UTorrent(v) => ("µTorrent ", Some(v)),
            Self::UTorrentEmbedded(v) => ("µTorrent Emb. ", Some(v)),
            Self::UTorrentMac(v) => ("µTorrent Mac ", Some(v)),
            Self::UTorrentWeb(v) => ("µTorrent Web ", Some(v)),
            Self::Vuze(v) => ("Vuze ", Some(v)),
            Self::WebTorrent(v) => ("WebTorrent ", Some(v)),
            Self::WebTorrentDesktop(v) => ("WebTorrent Desktop ", Some(v)),
            Self::Mainline(v) => ("Mainline ", Some(v)),
            Self::OtherWithPrefixAndVersion { prefix, version } => {
                let mut s = String::from_str("Other (");
                s.append(prefix.as_str());
                s.append(") (");
                s.append(version.as_str());
                s.append(")");
                return s;
            },
            Self::OtherWithPrefix(prefix) => {
                let mut s = String::from_str("Other (");
                s.append(prefix.as_str());
                s.append(")");
                return s;
            },
            Self::Other => ("Other", None),
        };
        let mut s = String::from_str(name);
        match value {
            Some(v) => s.append(v.as_str()),
            None => {},
        }
        s
    }
}

impl PeerId {
    /// The client that the peer id names
    pub fn client(&self) -> (r: PeerClient)
        ensures
            r@ == client_of_peer_id(self.0@),
    {
        PeerClient::from_peer_id(self)
    }

    /// The first eight bytes of the peer id as lowercase hex
    pub fn first_8_bytes_hex(&self) -> (r: String)
        ensures
            r@ == hex_lower(self.0@.take(8)).map_values(|b: u8| b as char),
    {
        let first = [self.0[0], self.0[1], self.0[2], self.0[3], self.0[4], self.0[5], self.0[6], self.0[7]];
        proof {
            assert(first@ =~= self.0@.take(8));
        }
        let hex = hex_encode_8(&first);
        string_from_bytes_as_chars(&hex)
    }
}

} // verus!
