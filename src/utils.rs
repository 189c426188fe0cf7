//! Helpers over lists of identifiers, and the addresses of metadata entries
//! (scopes, sessions, records and their specifications).
use vstd::prelude::*;
use crate::keys::{key_eq, lemma_filter_step};
use crate::state::strings_view;
use vstd::utf8::encode_utf8;

verus! {

/// Whether some element of `a` occurs in `b`.
pub open spec fn shares_any(a: Seq<Seq<char>>, b: Seq<Seq<char>>) -> bool {
    exists|i: int| 0 <= i < a.len() && #[trigger] b.contains(a[i])
}

/// Whether `x` is one of the strings of `v`.
pub fn contains_str(v: &[String], x: &str) -> (r: bool)
    ensures
        r == strings_view(v@).contains(x@),
{
    let mut i: usize = 0;
    while i < v.len()
        invariant
            i <= v@.len(),
            forall|j: int| 0 <= j < i ==> v@[j]@ != x@,
        decreases v@.len() - i,
    {
        if key_eq(v[i].as_str(), x) {
            proof {
                assert(strings_view(v@)[i as int] == x@);
            }
            return true;
        }
        i = i + 1;
    }
    false
}

/// Whether the elements of `a` that occur in `b` are as many as `b` has.
pub fn vec_contains(a: &[String], b: &[String]) -> (r: bool)
    ensures
        r == (strings_view(a@).filter(|x: Seq<char>| strings_view(b@).contains(x)).len()
            == b@.len()),
{
    let ghost pred = |x: Seq<char>| strings_view(b@).contains(x);
    let mut matching: usize = 0;
    let mut i: usize = 0;
    while i < a.len()
        invariant
            i <= a@.len(),
            matching == strings_view(a@).take(i as int).filter(pred).len(),
            matching <= i,
            pred == (|x: Seq<char>| strings_view(b@).contains(x)),
        decreases a@.len() - i,
    {
        let hit = contains_str(b, a[i].as_str());
        proof {
            lemma_filter_step(strings_view(a@), i as int, pred);
            assert(strings_view(a@)[i as int] == a@[i as int]@);
            assert(pred(strings_view(a@)[i as int]) == hit);
        }
        if hit {
            matching = matching + 1;
        }
        i = i + 1;
    }
    proof {
        assert(strings_view(a@).take(i as int) =~= strings_view(a@));
    }
    matching == b.len()
}

/// Whether some element of `a` occurs in `b`.
pub fn vec_has_any(a: &[String], b: &[String]) -> (r: bool)
    ensures
        r == shares_any(strings_view(a@), strings_view(b@)),
{
    let mut i: usize = 0;
    while i < a.len()
        invariant
            i <= a@.len(),
            forall|j: int| 0 <= j < i ==> !strings_view(b@).contains(#[trigger] strings_view(a@)[j]),
        decreases a@.len() - i,
    {
        if contains_str(b, a[i].as_str()) {
            proof {
                assert(strings_view(b@).contains(strings_view(a@)[i as int]));
            }
            return true;
        }
        i = i + 1;
    }
    false
}

/// The lowercase form of a string, as `str::to_lowercase` computes it.
pub uninterp spec fn lower_of(s: Seq<char>) -> Seq<char>;

/// The SHA-256 digest of a byte string.
pub uninterp spec fn sha256_of(data: Seq<u8>) -> Seq<u8>;

/// The Bech32 text for a human-readable part and a payload, where `bech32`
/// encodes one.
pub uninterp spec fn bech32_text(hrp: Seq<char>, data: Seq<u8>) -> Seq<char>;

/// The human-readable part and payload that `bech32` decodes from a text,
/// where it decodes one.
pub uninterp spec fn bech32_parts(s: Seq<char>) -> Option<(Seq<char>, Seq<u8>)>;

/// Relies on `str::to_lowercase`: the result depends on the text alone.
#[verifier::external_body]
fn lowercase(s: &str) -> (r: String)
    ensures
        r@ == lower_of(s@),
{
    s.to_lowercase()
}

/// Relies on `sha2::Sha256::digest`: a 32-byte digest that depends on the
/// input alone.
#[verifier::external_body]
fn sha256(data: &[u8]) -> (r: Vec<u8>)
    ensures
        r@ == sha256_of(data@),
        r@.len() == 32,
{
    <sha2::Sha256 as sha2::Digest>::digest(data).to_vec()
}

/// A human-readable part that `bech32::encode` accepts as it stands: 1 to 83
/// lowercase ASCII letters.
pub open spec fn plain_hrp(hrp: Seq<char>) -> bool {
    1 <= hrp.len() <= 83 && forall|i: int| 0 <= i < hrp.len() ==> 'a' <= #[trigger] hrp[i] <= 'z'
}

/// Relies on `bech32::encode` with the Bech32 (not Bech32m) checksum, after
/// `ToBase32::to_base32` on the payload: it fails only when the
/// human-readable part is empty, longer than 83 bytes, outside printable
/// ASCII or of mixed case.
#[verifier::external_body]
fn bech32_encode(hrp: &str, data: &[u8]) -> (r: Option<String>)
    ensures
        r matches Some(s) ==> s@ == bech32_text(hrp@, data@),
        plain_hrp(hrp@) ==> r is Some,
{
    match bech32::encode(hrp, bech32::ToBase32::to_base32(&data), bech32::Variant::Bech32) {
        Ok(s) => Some(s),
        Err(_) => None,
    }
}

/// Relies on `bech32::decode` and `FromBase32::from_base32` for bytes: the
/// result depends on the text alone.
#[verifier::external_body]
fn bech32_decode(s: &str) -> (r: Option<(String, Vec<u8>)>)
    ensures
        match r {
            Some((hrp, data)) => bech32_parts(s@) == Some((hrp@, data@)),
            None => bech32_parts(s@) is None,
        },
{
    match bech32::decode(s) {
        Ok((hrp, data, _)) => match <Vec<u8> as bech32::FromBase32>::from_base32(&data) {
            Ok(bytes) => Some((hrp, bytes)),
            Err(_) => None,
        },
        Err(_) => None,
    }
}

pub const KEY_SCOPE: u8 = 0x00;

pub const KEY_SESSION: u8 = 0x01;

pub const KEY_RECORD: u8 = 0x02;

pub const KEY_SCOPE_SPECIFICATION: u8 = 0x04;

pub const KEY_CONTRACT_SPECIFICATION: u8 = 0x03;

pub const KEY_RECORD_SPECIFICATION: u8 = 0x05;

/// The human-readable prefix of an address kind; empty for an unknown key.
pub open spec fn prefix_of(key: u8) -> Seq<char> {
    if key == KEY_SCOPE {
        "scope"@
    } else if key == KEY_SESSION {
        "session"@
    } else if key == KEY_RECORD {
        "record"@
    } else if key == KEY_SCOPE_SPECIFICATION {
        "scopespec"@
    } else if key == KEY_CONTRACT_SPECIFICATION {
        "contractspec"@
    } else if key == KEY_RECORD_SPECIFICATION {
        "recspec"@
    } else {
        Seq::empty()
    }
}

/// The byte length of an address of a kind: a key and one identifier, or a
/// key, an identifier and a 16-byte secondary part; 0 for an unknown key.
pub open spec fn address_len(key: u8) -> int {
    if key == KEY_SCOPE || key == KEY_SCOPE_SPECIFICATION || key == KEY_CONTRACT_SPECIFICATION {
        17
    } else if key == KEY_SESSION || key == KEY_RECORD || key == KEY_RECORD_SPECIFICATION {
        33
    } else {
        0
    }
}

/// Well-formed address bytes: a known key and the length of its kind.
pub open spec fn valid_address(b: Seq<u8>) -> bool {
    b.len() > 0 && address_len(b[0]) > 0 && b.len() == address_len(b[0])
}

/// The first 16 bytes of the digest of the lowercase UTF-8 form of a name.
pub open spec fn hashed_name(name: Seq<char>) -> Seq<u8> {
    sha256_of(encode_utf8(lower_of(name))).take(16)
}

/// The address of a metadata entry: a key byte naming its kind, followed by
/// the entry's identifiers.
pub struct MetadataAddress {
    bytes: Vec<u8>,
}

impl View for MetadataAddress {
    type V = Seq<u8>;

    closed spec fn view(&self) -> Seq<u8> {
        self.bytes@
    }
}

fn append_bytes(v: &mut Vec<u8>, b: &[u8])
    ensures
        final(v)@ == old(v)@ + b@,
{
    let mut i: usize = 0;
    while i < b.len()
        invariant
            i <= b@.len(),
            v@ == old(v)@ + b@.take(i as int),
        decreases b@.len() - i,
    {
        v.push(b[i]);
        i = i + 1;
        proof {
            assert(b@.take(i as int) =~= b@.take(i - 1).push(b@[i - 1]));
            assert(v@ =~= old(v)@ + b@.take(i as int));
        }
    }
    proof {
        assert(b@.take(i as int) =~= b@);
    }
}

impl MetadataAddress {
    /// The address of a scope.
    pub fn for_scope(scope_uuid: [u8; 16]) -> (r: Self)
        ensures
            r@ == seq![KEY_SCOPE] + scope_uuid@,
            valid_address(r@),
    {
        let mut data: Vec<u8> = Vec::new();
        data.push(KEY_SCOPE);
        append_bytes(&mut data, scope_uuid.as_slice());
        MetadataAddress { bytes: data }
    }

    /// The address of a session of a scope.
    pub fn for_session(scope_uuid: [u8; 16], session_uuid: [u8; 16]) -> (r: Self)
        ensures
            r@ == seq![KEY_SESSION] + scope_uuid@ + session_uuid@,
            valid_address(r@),
    {
        let mut data: Vec<u8> = Vec::new();
        data.push(KEY_SESSION);
        append_bytes(&mut data, scope_uuid.as_slice());
        append_bytes(&mut data, session_uuid.as_slice());
        MetadataAddress { bytes: data }
    }

    /// The address of a named record of a scope.
    pub fn for_record(scope_uuid: [u8; 16], record_name: String) -> (r: Self)
        ensures
            r@ == seq![KEY_RECORD] + scope_uuid@ + hashed_name(record_name@),
            valid_address(r@),
    {
        let mut data: Vec<u8> = Vec::new();
        data.push(KEY_RECORD);
        append_bytes(&mut data, scope_uuid.as_slice());
        let hashed = Self::as_hashed_bytes(record_name);
        append_bytes(&mut data, hashed.as_slice());
        MetadataAddress { bytes: data }
    }

    /// The address of a scope specification.
    pub fn for_scope_specification(scope_spec_uuid: [u8; 16]) -> (r: Self)
        ensures
            r@ == seq![KEY_SCOPE_SPECIFICATION] + scope_spec_uuid@,
            valid_address(r@),
    {
        let mut data: Vec<u8> = Vec::new();
        data.push(KEY_SCOPE_SPECIFICATION);
        append_bytes(&mut data, scope_spec_uuid.as_slice());
        MetadataAddress { bytes: data }
    }

    /// The address of a contract specification.
    pub fn for_contract_specification(contract_spec_uuid: [u8; 16]) -> (r: Self)
        ensures
            r@ == seq![KEY_CONTRACT_SPECIFICATION] + contract_spec_uuid@,
            valid_address(r@),
    {
        let mut data: Vec<u8> = Vec::new();
        data.push(KEY_CONTRACT_SPECIFICATION);
        append_bytes(&mut data, contract_spec_uuid.as_slice());
        MetadataAddress { bytes: data }
    }

    /// The address of a named record specification of a contract specification.
    pub fn for_record_specification(contract_spec_uuid: [u8; 16], record_spec_name: String) -> (r:
        Self)
        ensures
            r@ == seq![KEY_RECORD_SPECIFICATION] + contract_spec_uuid@ + hashed_name(
                record_spec_name@,
            ),
            valid_address(r@),
    {
        let mut data: Vec<u8> = Vec::new();
        data.push(KEY_RECORD_SPECIFICATION);
        append_bytes(&mut data, contract_spec_uuid.as_slice());
        let hashed = Self::as_hashed_bytes(record_spec_name);
        append_bytes(&mut data, hashed.as_slice());
        MetadataAddress { bytes: data }
    }

    /// Reads an address from its Bech32 text; `None` unless the text decodes
    /// to well-formed address bytes whose kind has the text's prefix.
    pub fn from_bech32(bech32_value: String) -> (r: Option<Self>)
        ensures
            match bech32_parts(bech32_value@) {
                Some((hrp, data)) => if valid_address(data) && hrp == prefix_of(data[0]) {
                    r matches Some(a) && a@ == data
                } else {
                    r is None
                },
                None => r is None,
            },
    {
        match bech32_decode(bech32_value.as_str()) {
            Some((hrp, data)) => {
                if !Self::validate_bytes(&data) {
                    return None;
                }
                let prefix = Self::get_prefix_from_key(data[0]);
                if !crate::keys::key_eq(hrp.as_str(), prefix.as_str()) {
                    return None;
                }
                Some(MetadataAddress { bytes: data })
            },
            None => None,
        }
    }

    /// The first 16 bytes of the SHA-256 digest of the lowercase name.
    pub fn as_hashed_bytes(string: String) -> (r: Vec<u8>)
        ensures
            r@ == hashed_name(string@),
            r@.len() == 16,
    {
        let lower = lowercase(string.as_str());
        let mut hashed = sha256(lower.as_str().as_bytes());
        hashed.truncate(16);
        hashed
    }

    /// The prefix of an address kind; empty for an unknown key.
    pub fn get_prefix_from_key(key: u8) -> (r: String)
        ensures
            r@ == prefix_of(key),
    {
        if key == KEY_SCOPE {
            "scope".to_string()
        } else if key == KEY_SESSION {
            "session".to_string()
        } else if key == KEY_RECORD {
            "record".to_string()
        } else if key == KEY_SCOPE_SPECIFICATION {
            "scopespec".to_string()
        } else if key == KEY_CONTRACT_SPECIFICATION {
            "contractspec".to_string()
        } else if key == KEY_RECORD_SPECIFICATION {
            "recspec".to_string()
        } else {
            String::new()
        }
    }

    /// Whether the bytes are a well-formed address: a known key and the
    /// length of its kind.
    pub fn validate_bytes(bytes: &Vec<u8>) -> (r: bool)
        ensures
            r == valid_address(bytes@),
    {
        if bytes.len() == 0 {
            return false;
        }
        let expected_length: usize = if bytes[0] == KEY_SCOPE || bytes[0] == KEY_SCOPE_SPECIFICATION
            || bytes[0] == KEY_CONTRACT_SPECIFICATION {
            17
        } else if bytes[0] == KEY_SESSION || bytes[0] == KEY_RECORD || bytes[0]
            == KEY_RECORD_SPECIFICATION {
            33
        } else {
            0
        };
        expected_length > 0 && bytes.len() == expected_length
    }

    /// The key byte naming the address's kind.
    pub fn get_key(&self) -> (r: u8)
        requires
            self@.len() > 0,
        ensures
            r == self@[0],
    {
        self.bytes[0]
    }

    /// The prefix of the address's kind.
    pub fn get_prefix(&self) -> (r: String)
        requires
            self@.len() > 0,
        ensures
            r@ == prefix_of(self@[0]),
    {
        Self::get_prefix_from_key(self.get_key())
    }

    /// The bytes of the primary identifier.
    pub fn get_primary_uuid(&self) -> (r: Vec<u8>)
        requires
            self@.len() >= 17,
        ensures
            r@ == self@.subrange(1, 17),
    {
        let mut r: Vec<u8> = Vec::new();
        let mut i: usize = 1;
        while i < 17
            invariant
                1 <= i <= 17,
                self.bytes@.len() >= 17,
                r@ == self.bytes@.subrange(1, i as int),
            decreases 17 - i,
        {
            r.push(self.bytes[i]);
            i = i + 1;
            proof {
                assert(r@ =~= self.bytes@.subrange(1, i as int));
            }
        }
        r
    }

    /// The bytes after the primary identifier; empty for a kind without them.
    pub fn get_secondary_bytes(&self) -> (r: Vec<u8>)
        ensures
            r@ == if self@.len() <= 17 {
                Seq::empty()
            } else {
                self@.subrange(17, self@.len() as int)
            },
    {
        let mut r: Vec<u8> = Vec::new();
        if self.bytes.len() <= 17 {
            return r;
        }
        let mut i: usize = 17;
        while i < self.bytes.len()
            invariant
                17 <= i <= self.bytes@.len(),
                r@ == self.bytes@.subrange(17, i as int),
            decreases self.bytes@.len() - i,
        {
            r.push(self.bytes[i]);
            i = i + 1;
            proof {
                assert(r@ =~= self.bytes@.subrange(17, i as int));
            }
        }
        r
    }

    /// The Bech32 text of the address, under its kind's prefix.
    pub fn to_string(&self) -> (r: String)
        requires
            valid_address(self@),
        ensures
            r@ == bech32_text(prefix_of(self@[0]), self@),
    {
        let prefix = self.get_prefix();
        proof {
            reveal_strlit("scope");
            reveal_strlit("session");
            reveal_strlit("record");
            reveal_strlit("scopespec");
            reveal_strlit("contractspec");
            reveal_strlit("recspec");
        }
        match bech32_encode(prefix.as_str(), self.bytes.as_slice()) {
            Some(s) => s,
            None => String::new(),
        }
    }
}

} // verus!
