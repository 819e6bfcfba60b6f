//! Verified core of the aquatic BitTorrent tracker: peer swarms, scrape
//! bookkeeping, connection ids, access lists, peer client detection and the
//! helpers around them.

pub mod bencher;
pub mod collections;
pub mod common;
pub mod decimal;
pub mod http;
pub mod http_protocol;
pub mod load_tester;
pub mod ordered;
pub mod peer_id;
pub mod text;
pub mod udp;
