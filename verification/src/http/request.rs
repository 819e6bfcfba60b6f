//! The peer address that a reverse proxy forwards in a request header.

use vstd::prelude::*;

use vstd::string::StringSliceAdditionalSpecFns;
use vstd::utf8::valid_utf8;

use crate::http::config::ReverseProxyPeerIpHeaderFormat;
use vstd::slice::slice_subrange;

use crate::text::{str_eq, trim, trimmed};

verus! {

/// A header of a request, as `httparse` hands it out: its name, and its
/// value as bytes
#[derive(Debug, Clone, PartialEq, Eq)]
pub struct Header {
    pub name: String,
    pub value: Vec<u8>,
}

/// Why no peer address could be taken from the headers
#[derive(Debug, Clone, Copy, PartialEq, Eq, Structural)]
pub enum ForwardedHeaderError {
    /// No header has the name
    NotPresent,
    /// The header's value is not UTF-8
    NotUtf8,
}

/// `std::str::from_utf8`: the text of the bytes if they are valid UTF-8
#[verifier::external_body]
fn str_from_utf8(bytes: &[u8]) -> (r: Option<&str>)
    ensures
        match r {
            Some(s) => valid_utf8(bytes@) && s.spec_bytes() == bytes@,
            None => !valid_utf8(bytes@),
        },
{
    std::str::from_utf8(bytes).ok()
}


/// Index of the last header with the name, if any
pub open spec fn last_header_named(headers: Seq<Header>, name: Seq<char>) -> Option<int>
    decreases headers.len(),
{
    if headers.len() == 0 {
        None
    } else if headers.last().name@ == name {
        Some(headers.len() - 1)
    } else {
        last_header_named(headers.drop_last(), name)
    }
}

/// The bytes after the last comma, or all of them if there is no comma
pub open spec fn after_last_comma(b: Seq<u8>) -> Seq<u8>
    decreases b.len(),
{
    if b.len() == 0 {
        b
    } else if b.last() == 44 {
        Seq::<u8>::empty()
    } else {
        after_last_comma(b.drop_last()).push(b.last())
    }
}

/// The peer address text in the headers: the last address of the last
/// header with the name, without surrounding whitespace
pub open spec fn forwarded_address(headers: Seq<Header>, name: Seq<char>) -> Result<Seq<char>, ForwardedHeaderError> {
    match last_header_named(headers, name) {
        None => Err(ForwardedHeaderError::NotPresent),
        Some(i) => {
            let value = headers[i].value@;
            let last = after_last_comma(value);
            if valid_utf8(value) && valid_utf8(last) {
                Ok(trimmed(vstd::utf8::decode_utf8(last)))
            } else {
                Err(ForwardedHeaderError::NotUtf8)
            }
        },
    }
}

proof fn lemma_last_header_named(headers: Seq<Header>, name: Seq<char>, n: int)
    requires
        0 <= n <= headers.len(),
        forall|k: int| n <= k < headers.len() ==> (#[trigger] headers[k]).name@ != name,
    ensures
        last_header_named(headers, name) == last_header_named(headers.take(n), name),
    decreases headers.len(),
{
    if n < headers.len() {
        assert(headers.drop_last().take(n) =~= headers.take(n));
        lemma_last_header_named(headers.drop_last(), name, n);
    } else {
        assert(headers.take(n) =~= headers);
    }
}

proof fn lemma_after_last_comma(b: Seq<u8>, start: int)
    requires
        0 <= start <= b.len(),
        start == 0 || b[start - 1] == 44,
        forall|k: int| start <= k < b.len() ==> #[trigger] b[k] != 44,
    ensures
        after_last_comma(b) == b.subrange(start, b.len() as int),
    decreases b.len(),
{
    if b.len() > start {
        lemma_after_last_comma(b.drop_last(), start);
        assert(b.drop_last().subrange(start, b.len() - 1).push(b.last()) =~= b.subrange(start, b.len() as int));
    } else if b.len() > 0 {
        assert(b.subrange(start, b.len() as int) =~= Seq::<u8>::empty());
    }
}

/// The address text of the peer that the reverse proxy forwarded: the last
/// address in the last header with the name (header names compare exactly)
pub fn forwarded_address_text(
    header_name: &str,
    header_format: ReverseProxyPeerIpHeaderFormat,
    headers: &Vec<Header>,
) -> (r: Result<String, ForwardedHeaderError>)
    ensures
        match (r, forwarded_address(headers@, header_name@)) {
            (Ok(s), Ok(t)) => s@ == t,
            (Err(e), Err(f)) => e == f,
            _ => false,
        },
{
    let mut n = headers.len();
    while n > 0
        invariant
            0 <= n <= headers@.len(),
            forall|k: int| n <= k < headers@.len() ==> (#[trigger] headers@[k]).name@ != header_name@,
        decreases n,
    {
        let header = &headers[n - 1];
        if str_eq(header.name.as_str(), header_name) {
            proof {
                lemma_last_header_named(headers@, header_name@, n as int);
                assert(headers@.take(n as int).last() == *header);
                assert(last_header_named(headers@.take(n as int), header_name@) == Some(n - 1));
            }
            match header_format {
                ReverseProxyPeerIpHeaderFormat::LastAddress => {
                    let value = header.value.as_slice();
                    if str_from_utf8(value).is_none() {
                        return Err(ForwardedHeaderError::NotUtf8);
                    }
                    let mut start = value.len();
                    while start > 0 && value[start - 1] != 44
                        invariant
                            0 <= start <= value@.len(),
                            forall|k: int| start <= k < value@.len() ==> #[trigger] value@[k] != 44,
                        decreases start,
                    {
                        start = start - 1;
                    }
                    proof {
                        lemma_after_last_comma(value@, start as int);
                    }
                    let tail = slice_subrange(value, start, value.len());
                    return match str_from_utf8(tail) {
                        Some(text) => {
                            let address = trim(text);
                            proof {
                                vstd::utf8::encode_utf8_decode_utf8(text@);
                            }
                            Ok(address.to_string())
                        },
                        None => Err(ForwardedHeaderError::NotUtf8),
                    };
                },
            }
        }
        n = n - 1;
    }
    proof {
        lemma_last_header_named(headers@, header_name@, 0);
    }
    Err(ForwardedHeaderError::NotPresent)
}

} // verus!
