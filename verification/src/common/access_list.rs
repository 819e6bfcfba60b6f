//! Info hash access lists: allow or deny torrents by info hash.

use vstd::prelude::*;

use hashbrown::HashSet;
use vstd::string::StringSliceAdditionalSpecFns;
use vstd::utf8::encode_utf8;

use crate::peer_id::hex_lower;
use crate::text::{trim, trimmed};

verus! {

/// Access list mode. Available modes are allow, deny and off.
#[derive(Clone, Copy, Debug, PartialEq, Eq, Structural)]
pub enum AccessListMode {
    /// Only serve torrents with info hash present in file
    Allow,
    /// Do not serve torrents if info hash present in file
    Deny,
    /// Turn off access list functionality
    Off,
}

impl AccessListMode {
    pub fn is_on(&self) -> (r: bool)
        ensures
            r == !(*self is Off),
    {
        !matches!(self, Self::Off)
    }
}

#[derive(Clone, Debug, PartialEq)]
pub struct AccessListConfig {
    pub mode: AccessListMode,
    /// Path to access list file consisting of newline-separated hex-encoded info hashes.
    pub path: String,
}

impl Default for AccessListConfig {
    fn default() -> (r: Self)
        ensures
            r.mode == AccessListMode::Off,
            r.path@ == "./access-list.txt"@,
    {
        Self { path: String::from_str("./access-list.txt"), mode: AccessListMode::Off }
    }
}

/// Error of decoding a hex string, one variant for each failure
#[derive(Clone, Copy, Debug, PartialEq, Eq, Structural)]
pub enum HexError {
    /// An invalid character was found at the index
    InvalidHexCharacter { c: char, index: usize },
    /// The string's length is odd
    OddLength,
    /// The string's length is not twice the output length
    InvalidStringLength,
}

/// Value of a hex digit (either case), if the byte is one
pub open spec fn hex_digit_value(c: u8) -> Option<u8> {
    if 0x30 <= c <= 0x39 {
        Some((c - 0x30) as u8)
    } else if 0x61 <= c <= 0x66 {
        Some((c - 0x61 + 10) as u8)
    } else if 0x41 <= c <= 0x46 {
        Some((c - 0x41 + 10) as u8)
    } else {
        None
    }
}

/// Index of the first byte of `data` below `n` that is not a hex digit, or
/// `n` if there is none
pub open spec fn first_non_hex_index(data: Seq<u8>, n: int) -> int
    decreases n,
{
    if n <= 0 {
        0
    } else if first_non_hex_index(data, n - 1) < n - 1 {
        first_non_hex_index(data, n - 1)
    } else if hex_digit_value(data[n - 1]) is None {
        n - 1
    } else {
        n
    }
}

/// The bytes that a valid hex string denotes, two digits per byte, high
/// digit first
pub open spec fn hex_decoded(data: Seq<u8>) -> Seq<u8> {
    Seq::new(
        data.len() / 2,
        |i: int|
            (hex_digit_value(data[2 * i]).unwrap() * 16 + hex_digit_value(data[2 * i + 1]).unwrap()) as u8,
    )
}

/// What decoding `data` into `out_len` bytes gives: the decoded bytes, or
/// the first failure in the order of the checks (odd length, wrong length,
/// first invalid character)
pub open spec fn hex_decode_result(data: Seq<u8>, out_len: nat) -> Result<Seq<u8>, HexError> {
    if data.len() % 2 != 0 {
        Err(HexError::OddLength)
    } else if data.len() / 2 != out_len {
        Err(HexError::InvalidStringLength)
    } else if first_non_hex_index(data, data.len() as int) < data.len() {
        let i = first_non_hex_index(data, data.len() as int);
        Err(HexError::InvalidHexCharacter { c: data[i] as char, index: i as usize })
    } else {
        Ok(hex_decoded(data))
    }
}

/// The uppercase hex digits of the bytes, two per byte, high digit first
pub open spec fn hex_upper(bytes: Seq<u8>) -> Seq<u8> {
    Seq::new(
        2 * bytes.len(),
        |i: int|
            {
                let b = bytes[i / 2];
                let d = if i % 2 == 0 { b / 16 } else { b % 16 };
                if d < 10 { (0x30 + d) as u8 } else { (0x41 + d - 10) as u8 }
            },
    )
}

proof fn lemma_all_hex(data: Seq<u8>, n: int)
    requires
        0 <= n <= data.len(),
        forall|j: int| 0 <= j < n ==> hex_digit_value(#[trigger] data[j]) is Some,
    ensures
        first_non_hex_index(data, n) == n,
    decreases n,
{
    if n > 0 {
        lemma_all_hex(data, n - 1);
    }
}

proof fn lemma_hex_digits_decode(b: Seq<u8>, data: Seq<u8>, upper: bool)
    requires
        data == (if upper { hex_upper(b) } else { hex_lower(b) }),
    ensures
        hex_decode_result(data, b.len()) == Ok::<Seq<u8>, HexError>(b),
{
    assert forall|i: int| 0 <= i < data.len() implies hex_digit_value(#[trigger] data[i]) == Some(
        (if i % 2 == 0 { b[i / 2] / 16 } else { b[i / 2] % 16 }) as u8,
    ) by {}
    lemma_all_hex(data, data.len() as int);
    assert forall|i: int| 0 <= i < b.len() implies #[trigger] hex_decoded(data)[i] == b[i] by {
        assert((2 * i) / 2 == i);
        assert((2 * i + 1) / 2 == i);
        assert((2 * i) % 2 == 0);
        assert((2 * i + 1) % 2 == 1);
        assert(hex_digit_value(data[2 * i]) == Some((b[i] / 16) as u8));
        assert(hex_digit_value(data[2 * i + 1]) == Some((b[i] % 16) as u8));
    }
    assert(hex_decoded(data) =~= b);
}

/// The byte with an ASCII capital letter made small
pub open spec fn ascii_lowercase(c: u8) -> u8 {
    if 0x41 <= c <= 0x5a { (c + 0x20) as u8 } else { c }
}

proof fn lemma_first_non_hex_all(data: Seq<u8>, n: int, j: int)
    requires
        0 <= j < n <= data.len(),
        first_non_hex_index(data, n) == n,
    ensures
        hex_digit_value(data[j]) is Some,
    decreases n,
{
    if first_non_hex_index(data, n - 1) < n - 1 {
    } else {
        if j < n - 1 {
            lemma_first_non_hex_all(data, n - 1, j);
        }
    }
}

proof fn lemma_digit_lower(c: u8, v: u8)
    requires
        hex_digit_value(c) == Some(v),
    ensures
        v < 16,
        ascii_lowercase(c) == (if v < 10 { (0x30 + v) as u8 } else { (0x61 + v - 10) as u8 }),
{
}

/// Decoding then encoding gives back the text, in lowercase: what
/// decodes without error is exactly hex digits of either case, and the
/// lowercase hex digits of the bytes are those digits made small.
pub proof fn law_encode_of_decode(data: Seq<u8>, n: nat)
    requires
        hex_decode_result(data, n) is Ok,
    ensures
        data.len() == 2 * n,
        forall|i: int| 0 <= i < data.len() ==> hex_digit_value(#[trigger] data[i]) is Some,
        hex_lower(hex_decode_result(data, n)->Ok_0) == data.map_values(|c: u8| ascii_lowercase(c)),
{
    let b = hex_decode_result(data, n)->Ok_0;
    assert forall|i: int| 0 <= i < data.len() implies hex_digit_value(#[trigger] data[i]) is Some by {
        lemma_first_non_hex_all(data, data.len() as int, i);
    }
    assert forall|i: int| 0 <= i < data.len() implies #[trigger] hex_lower(b)[i] == ascii_lowercase(data[i]) by {
        let k = i / 2;
        let hi = hex_digit_value(data[2 * k]).unwrap();
        let lo = hex_digit_value(data[2 * k + 1]).unwrap();
        lemma_first_non_hex_all(data, data.len() as int, 2 * k);
        lemma_first_non_hex_all(data, data.len() as int, 2 * k + 1);
        lemma_digit_lower(data[2 * k], hi);
        lemma_digit_lower(data[2 * k + 1], lo);
        assert(b[k] == (hi * 16 + lo) as u8);
        assert((hi * 16 + lo) / 16 == hi && (hi * 16 + lo) % 16 == lo) by (nonlinear_arith)
            requires
                hi < 16,
                lo < 16,
        ;
        if i % 2 == 0 {
            assert(i == 2 * k);
        } else {
            assert(i == 2 * k + 1);
        }
    }
    assert(hex_lower(b) =~= data.map_values(|c: u8| ascii_lowercase(c)));
}

/// Hex encoding round-trips through decoding: the lowercase and the
/// uppercase hex digits of any bytes decode back to those bytes, so an
/// info hash written in hex of either case parses back to itself.
pub proof fn law_hex_decode_of_encode(b: Seq<u8>)
    ensures
        hex_decode_result(hex_lower(b), b.len()) == Ok::<Seq<u8>, HexError>(b),
        hex_decode_result(hex_upper(b), b.len()) == Ok::<Seq<u8>, HexError>(b),
{
    lemma_hex_digits_decode(b, hex_lower(b), false);
    lemma_hex_digits_decode(b, hex_upper(b), true);
}

/// Decodes a hex string into 20 bytes with `hex::decode_to_slice`. The
/// contract states the whole behaviour of that function for a 20 byte
/// output: which error comes when, and the decoded bytes otherwise.
#[verifier::external_body]
fn hex_decode_20(data: &[u8]) -> (r: Result<[u8; 20], HexError>)
    ensures
        match hex_decode_result(data@, 20) {
            Ok(bytes) => r matches Ok(out) && out@ == bytes,
            Err(e) => r == Err::<[u8; 20], HexError>(e),
        },
{
    let mut bytes = [0u8; 20];
    match hex::decode_to_slice(data, &mut bytes) {
        Ok(()) => Ok(bytes),
        Err(hex::FromHexError::InvalidHexCharacter { c, index }) => Err(HexError::InvalidHexCharacter { c, index }),
        Err(hex::FromHexError::OddLength) => Err(HexError::OddLength),
        Err(hex::FromHexError::InvalidStringLength) => Err(HexError::InvalidStringLength),
    }
}

/// Parses a hex-encoded info hash (40 hex digits)
pub fn parse_info_hash(line: &str) -> (r: Result<[u8; 20], HexError>)
    ensures
        match hex_decode_result(line.spec_bytes(), 20) {
            Ok(bytes) => r matches Ok(out) && out@ == bytes,
            Err(e) => r == Err::<[u8; 20], HexError>(e),
        },
{
    hex_decode_20(line.as_bytes())
}

/// A set of info hashes: a `hashbrown::HashSet` in a private field, reached
/// only through the `info_hash_set_` wrappers
#[verifier::external_body]
pub struct InfoHashSet {
    set: HashSet<[u8; 20]>,
}

/// The info hashes in an access list set
pub uninterp spec fn info_hash_set(s: InfoHashSet) -> Set<[u8; 20]>;

/// An empty `hashbrown::HashSet` (`HashSet::default`)
#[verifier::external_body]
fn info_hash_set_new() -> (r: InfoHashSet)
    ensures
        info_hash_set(r) == Set::<[u8; 20]>::empty(),
{
    InfoHashSet { set: HashSet::default() }
}

/// `HashSet::insert`: afterwards the set holds the info hash too; the
/// result tells whether it was absent before
#[verifier::external_body]
fn info_hash_set_insert(s: &mut InfoHashSet, v: [u8; 20]) -> (r: bool)
    ensures
        info_hash_set(*final(s)) == info_hash_set(*old(s)).insert(v),
        r == !info_hash_set(*old(s)).contains(v),
{
    s.set.insert(v)
}

/// `HashSet::contains`
#[verifier::external_body]
fn info_hash_set_contains(s: &InfoHashSet, v: &[u8; 20]) -> (r: bool)
    ensures
        r == info_hash_set(*s).contains(*v),
{
    s.set.contains(v)
}

/// `HashSet::len`: the number of info hashes in the set
#[verifier::external_body]
fn info_hash_set_len(s: &InfoHashSet) -> (r: usize)
    ensures
        r == info_hash_set(*s).len(),
{
    s.set.len()
}

pub open spec fn allows_spec(set: Set<[u8; 20]>, mode: AccessListMode, info_hash: [u8; 20]) -> bool {
    match mode {
        AccessListMode::Allow => set.contains(info_hash),
        AccessListMode::Deny => !set.contains(info_hash),
        AccessListMode::Off => true,
    }
}

/// Error of building an access list from lines
#[derive(Clone, Debug, PartialEq, Eq)]
pub struct InvalidLine {
    /// Index of the offending line
    pub line_index: usize,
    pub error: HexError,
}

pub struct AccessList(InfoHashSet);

impl AccessList {
    pub closed spec fn view(&self) -> Set<[u8; 20]> {
        info_hash_set(self.0)
    }

    pub fn new() -> (r: Self)
        ensures
            r@ == Set::<[u8; 20]>::empty(),
    {
        AccessList(info_hash_set_new())
    }

    pub fn insert_from_line(&mut self, line: &str) -> (r: Result<(), HexError>)
        ensures
            match hex_decode_result(line.spec_bytes(), 20) {
                Ok(bytes) => r is Ok && exists|a: [u8; 20]|
                    a@ == bytes && final(self)@ == old(self)@.insert(a),
                Err(e) => r == Err::<(), HexError>(e) && final(self)@ == old(self)@,
            },
    {
        match parse_info_hash(line) {
            Ok(info_hash) => {
                info_hash_set_insert(&mut self.0, info_hash);
                Ok(())
            },
            Err(e) => Err(e),
        }
    }

    /// Builds an access list from the lines of an access list file, whose
    /// surrounding whitespace has been removed: empty lines are skipped,
    /// every other line must be a hex-encoded info hash
    pub fn create_from_lines(lines: &Vec<String>) -> (r: Result<AccessList, InvalidLine>)
        ensures
            match r {
                Ok(list) => forall|i: int|
                    0 <= i < lines.len() && lines[i]@.len() > 0 ==> hex_decode_result(
                        #[trigger] encode_utf8(lines[i]@),
                        20,
                    ) is Ok,
                Err(e) => e.line_index < lines.len() && hex_decode_result(
                    encode_utf8(lines[e.line_index as int]@),
                    20,
                ) == Err::<Seq<u8>, HexError>(e.error) && lines[e.line_index as int]@.len() > 0
                    && forall|i: int|
                    0 <= i < e.line_index && lines[i]@.len() > 0 ==> hex_decode_result(
                        #[trigger] encode_utf8(lines[i]@),
                        20,
                    ) is Ok,
            },
            r matches Ok(list) ==> forall|a: [u8; 20]|
                list@.contains(a) <==> exists|i: int|
                    0 <= i < lines.len() && lines[i]@.len() > 0 && #[trigger] hex_decode_result(
                        encode_utf8(lines[i]@),
                        20,
                    ) == Ok::<Seq<u8>, HexError>(a@),
    {
        let mut new_list = AccessList::new();
        let mut i: usize = 0;
        while i < lines.len()
            invariant
                0 <= i <= lines.len(),
                forall|j: int|
                    0 <= j < i && lines[j]@.len() > 0 ==> hex_decode_result(
                        #[trigger] encode_utf8(lines[j]@),
                        20,
                    ) is Ok,
                forall|a: [u8; 20]|
                    new_list@.contains(a) <==> exists|j: int|
                        0 <= j < i && lines[j]@.len() > 0 && #[trigger] hex_decode_result(
                            encode_utf8(lines[j]@),
                            20,
                        ) == Ok::<Seq<u8>, HexError>(a@),
            decreases lines.len() - i,
        {
            let line = lines[i].as_str();
            if line.is_empty() {
                proof {
                    assert forall|a: [u8; 20]|
                        new_list@.contains(a) <==> exists|j: int|
                            0 <= j < i + 1 && lines[j]@.len() > 0 && #[trigger] hex_decode_result(
                                encode_utf8(lines[j]@),
                                20,
                            ) == Ok::<Seq<u8>, HexError>(a@) by {
                        if exists|j: int|
                            0 <= j < i + 1 && lines[j]@.len() > 0 && #[trigger] hex_decode_result(
                                encode_utf8(lines[j]@),
                                20,
                            ) == Ok::<Seq<u8>, HexError>(a@) {
                            let j = choose|j: int|
                                0 <= j < i + 1 && lines[j]@.len() > 0 && #[trigger] hex_decode_result(
                                    encode_utf8(lines[j]@),
                                    20,
                                ) == Ok::<Seq<u8>, HexError>(a@);
                            assert(j != i);
                        }
                    }
                }
            } else {
                match parse_info_hash(line) {
                    Ok(info_hash) => {
                        let ghost old_set = new_list@;
                        info_hash_set_insert(&mut new_list.0, info_hash);
                        proof {
                            assert forall|a: [u8; 20]|
                                new_list@.contains(a) <==> exists|j: int|
                                    0 <= j < i + 1 && lines[j]@.len() > 0 && #[trigger] hex_decode_result(
                                        encode_utf8(lines[j]@),
                                        20,
                                    ) == Ok::<Seq<u8>, HexError>(a@) by {
                                if a == info_hash {
                                    assert(hex_decode_result(encode_utf8(lines[i as int]@), 20)
                                        == Ok::<Seq<u8>, HexError>(a@));
                                } else if new_list@.contains(a) {
                                    assert(old_set.contains(a));
                                } else if exists|j: int|
                                    0 <= j < i + 1 && lines[j]@.len() > 0 && #[trigger] hex_decode_result(
                                        encode_utf8(lines[j]@),
                                        20,
                                    ) == Ok::<Seq<u8>, HexError>(a@) {
                                    let j = choose|j: int|
                                        0 <= j < i + 1 && lines[j]@.len() > 0 && #[trigger] hex_decode_result(
                                            encode_utf8(lines[j]@),
                                            20,
                                        ) == Ok::<Seq<u8>, HexError>(a@);
                                    if j == i {
                                        assert(a@ == info_hash@);
                                        assert(a == info_hash);
                                    }
                                }
                            }
                        }
                    },
                    Err(error) => {
                        return Err(InvalidLine { line_index: i, error });
                    },
                }
            }
            i = i + 1;
        }
        Ok(new_list)
    }

    /// Builds an access list from the lines of an access list file as they
    /// were read: surrounding whitespace is removed from each line, empty
    /// lines are skipped, every other line must be a hex-encoded info hash
    pub fn create_from_raw_lines(lines: &Vec<String>) -> (r: Result<AccessList, InvalidLine>)
        ensures
            match r {
                Ok(list) => forall|i: int|
                    0 <= i < lines.len() && trimmed(lines[i]@).len() > 0 ==> hex_decode_result(
                        #[trigger] encode_utf8(trimmed(lines[i]@)),
                        20,
                    ) is Ok,
                Err(e) => e.line_index < lines.len() && hex_decode_result(
                    encode_utf8(trimmed(lines[e.line_index as int]@)),
                    20,
                ) == Err::<Seq<u8>, HexError>(e.error) && trimmed(lines[e.line_index as int]@).len() > 0
                    && forall|i: int|
                    0 <= i < e.line_index && trimmed(lines[i]@).len() > 0 ==> hex_decode_result(
                        #[trigger] encode_utf8(trimmed(lines[i]@)),
                        20,
                    ) is Ok,
            },
            r matches Ok(list) ==> forall|a: [u8; 20]|
                list@.contains(a) <==> exists|i: int|
                    0 <= i < lines.len() && trimmed(lines[i]@).len() > 0 && #[trigger] hex_decode_result(
                        encode_utf8(trimmed(lines[i]@)),
                        20,
                    ) == Ok::<Seq<u8>, HexError>(a@),
    {
        let mut trimmed_lines: Vec<String> = Vec::new();
        let mut i: usize = 0;
        while i < lines.len()
            invariant
                i <= lines.len(),
                trimmed_lines@.len() == i,
                forall|j: int| 0 <= j < i ==> (#[trigger] trimmed_lines@[j])@ == trimmed(lines[j]@),
            decreases lines.len() - i,
        {
            let line = trim(lines[i].as_str());
            trimmed_lines.push(line.to_string());
            i = i + 1;
        }
        let r = Self::create_from_lines(&trimmed_lines);
        proof {
            assert forall|j: int| 0 <= j < lines.len() implies trimmed_lines[j]@ == trimmed(lines[j]@) by {
                assert(trimmed_lines@[j]@ == trimmed(lines[j]@));
            }
            if r is Err {
                let e = r->Err_0;
                assert forall|i: int|
                    0 <= i < e.line_index && trimmed(lines[i]@).len() > 0 implies hex_decode_result(
                    #[trigger] encode_utf8(trimmed(lines[i]@)),
                    20,
                ) is Ok by {
                    assert(trimmed_lines[i]@ == trimmed(lines[i]@));
                    assert(hex_decode_result(encode_utf8(trimmed_lines[i]@), 20) is Ok);
                }
            }
            if r is Ok {
                let list = r->Ok_0;
                assert forall|i: int|
                    0 <= i < lines.len() && trimmed(lines[i]@).len() > 0 implies hex_decode_result(
                    #[trigger] encode_utf8(trimmed(lines[i]@)),
                    20,
                ) is Ok by {
                    assert(trimmed_lines[i]@ == trimmed(lines[i]@));
                    assert(hex_decode_result(encode_utf8(trimmed_lines[i]@), 20) is Ok);
                }
                assert forall|a: [u8; 20]|
                    list@.contains(a) <==> exists|i: int|
                        0 <= i < lines.len() && trimmed(lines[i]@).len() > 0 && #[trigger] hex_decode_result(
                            encode_utf8(trimmed(lines[i]@)),
                            20,
                        ) == Ok::<Seq<u8>, HexError>(a@) by {
                    if list@.contains(a) {
                        let i = choose|i: int|
                            0 <= i < trimmed_lines.len() && trimmed_lines[i]@.len() > 0 && #[trigger] hex_decode_result(
                                encode_utf8(trimmed_lines[i]@),
                                20,
                            ) == Ok::<Seq<u8>, HexError>(a@);
                        assert(trimmed_lines[i]@ == trimmed(lines[i]@));
                    }
                    if exists|i: int|
                        0 <= i < lines.len() && trimmed(lines[i]@).len() > 0 && #[trigger] hex_decode_result(
                            encode_utf8(trimmed(lines[i]@)),
                            20,
                        ) == Ok::<Seq<u8>, HexError>(a@) {
                        let i = choose|i: int|
                            0 <= i < lines.len() && trimmed(lines[i]@).len() > 0 && #[trigger] hex_decode_result(
                                encode_utf8(trimmed(lines[i]@)),
                                20,
                            ) == Ok::<Seq<u8>, HexError>(a@);
                        assert(trimmed_lines[i]@ == trimmed(lines[i]@));
                        assert(hex_decode_result(encode_utf8(trimmed_lines[i]@), 20) == Ok::<Seq<u8>, HexError>(a@));
                    }
                }
            }
        }
        r
    }

    pub fn allows(&self, mode: AccessListMode, info_hash: &[u8; 20]) -> (r: bool)
        ensures
            r == allows_spec(self@, mode, *info_hash),
    {
        match mode {
            AccessListMode::Allow => info_hash_set_contains(&self.0, info_hash),
            AccessListMode::Deny => !info_hash_set_contains(&self.0, info_hash),
            AccessListMode::Off => true,
        }
    }

    pub fn len(&self) -> (r: usize)
        ensures
            r == self@.len(),
    {
        info_hash_set_len(&self.0)
    }
}

/// Asking an access list whether it lets an info hash through. Replacing
/// the list from its file is the program's part, which reads the file.
pub trait AccessListQuery {
    fn allows(&self, list_mode: AccessListMode, info_hash_bytes: &[u8; 20]) -> bool;
}

impl AccessListQuery for AccessList {
    fn allows(&self, list_mode: AccessListMode, info_hash_bytes: &[u8; 20]) -> (r: bool)
        ensures
            r == allows_spec(self@, list_mode, *info_hash_bytes),
    {
        AccessList::allows(self, list_mode, info_hash_bytes)
    }
}

} // verus!
