//! QR-code pairing: the payload a host shows, the URI that carries it, and
//! the client-side check of the host's key fingerprint.

use vstd::prelude::*;
use vstd::string::*;
use crate::decimal::{decimal, lemma_decimal_injective, u64_text};
use crate::encoding::{
    base64url_decoded, base64url_text, decode_base64url, encode_base64url, hex_digit, hex_of, hex_text, lemma_hex_len,
};
use crate::json::{json_parse, json_text, object, object_entry, parse_json, render_json, Json, JsonTree};
use crate::params::{is_object, text_field, text_of, u16_field, u16_of, u64_field, u64_of};

verus! {

/// What a pairing QR code carries.
pub struct PairingPayload {
    /// Protocol version.
    pub v: u32,
    /// Host address.
    pub host: String,
    /// SSH port.
    pub port: u16,
    /// One-time pairing token.
    pub token: String,
    /// Expected host key fingerprint.
    pub fingerprint: String,
    /// Friendly name of the host.
    pub name: String,
}

/// The pairing protocol version this library speaks.
pub const PAIRING_VERSION: u32 = 1;

/// The text that starts every pairing URI.
pub open spec fn pairing_prefix() -> Seq<char> {
    "zedra://pair?d="@
}

impl PairingPayload {
    /// The JSON object of this payload.
    pub open spec fn tree(&self) -> JsonTree {
        JsonTree::Object(
            seq![
                ("v"@, JsonTree::Number(decimal(self.v as nat))),
                ("host"@, JsonTree::Str(self.host@)),
                ("port"@, JsonTree::Number(decimal(self.port as nat))),
                ("token"@, JsonTree::Str(self.token@)),
                ("fingerprint"@, JsonTree::Str(self.fingerprint@)),
                ("name"@, JsonTree::Str(self.name@)),
            ],
        )
    }

    pub fn to_json(&self) -> (r: Json)
        ensures
            r@ == self.tree(),
    {
        let ghost t = self.tree();
        let mut es: Vec<(String, Json)> = Vec::new();
        es.push(object_entry("v", Json::Number(u64_text(self.v as u64))));
        es.push(object_entry("host", Json::Str(self.host.clone())));
        es.push(object_entry("port", Json::Number(u64_text(self.port as u64))));
        es.push(object_entry("token", Json::Str(self.token.clone())));
        es.push(object_entry("fingerprint", Json::Str(self.fingerprint.clone())));
        es.push(object_entry("name", Json::Str(self.name.clone())));
        let r = object(es);
        assert(r@->Object_0 =~= t->Object_0);
        r
    }

    /// Reads a payload; the version must fit in 32 bits.
    pub fn from_json(j: &Json) -> (r: Result<PairingPayload, String>)
        ensures
            r matches Ok(p) ==> {
                &&& u64_of(j@, "v"@) == Ok::<u64, Seq<char>>(p.v as u64)
                &&& text_of(j@, "host"@) == Ok::<Seq<char>, Seq<char>>(p.host@)
                &&& u16_of(j@, "port"@) == Ok::<u16, Seq<char>>(p.port)
                &&& text_of(j@, "token"@) == Ok::<Seq<char>, Seq<char>>(p.token@)
                &&& text_of(j@, "fingerprint"@) == Ok::<Seq<char>, Seq<char>>(p.fingerprint@)
                &&& text_of(j@, "name"@) == Ok::<Seq<char>, Seq<char>>(p.name@)
            },
            r is Err ==> {
                ||| !(j@ is Object)
                ||| !(u64_of(j@, "v"@) matches Ok(v) && v <= u32::MAX)
                ||| text_of(j@, "host"@) is Err
                ||| u16_of(j@, "port"@) is Err
                ||| text_of(j@, "token"@) is Err
                ||| text_of(j@, "fingerprint"@) is Err
                ||| text_of(j@, "name"@) is Err
            },
    {
        if !is_object(j) {
            return Err("payload must be an object".to_owned());
        }
        let v = match u64_field(j, "v") {
            Ok(v) => v,
            Err(e) => {
                return Err(e);
            },
        };
        if v > 4294967295 {
            return Err("invalid type for field `v`".to_owned());
        }
        let host = match text_field(j, "host") {
            Ok(x) => x,
            Err(e) => {
                return Err(e);
            },
        };
        let port = match u16_field(j, "port") {
            Ok(x) => x,
            Err(e) => {
                return Err(e);
            },
        };
        let token = match text_field(j, "token") {
            Ok(x) => x,
            Err(e) => {
                return Err(e);
            },
        };
        let fingerprint = match text_field(j, "fingerprint") {
            Ok(x) => x,
            Err(e) => {
                return Err(e);
            },
        };
        let name = match text_field(j, "name") {
            Ok(x) => x,
            Err(e) => {
                return Err(e);
            },
        };
        Ok(PairingPayload { v: v as u32, host, port, token, fingerprint, name })
    }
}

/// The URI that a pairing QR code shows: the prefix, then the payload's JSON
/// text in URL-safe base64.
pub fn pairing_uri(payload: &PairingPayload) -> (r: String)
    ensures
        r@ == pairing_prefix() + base64url_text(json_text(payload.tree())),
{
    let bytes = render_json(&payload.to_json());
    let encoded = encode_base64url(bytes.as_slice());
    let mut uri = "zedra://pair?d=".to_owned();
    uri.append(encoded.as_str());
    uri
}

/// `uri` is the prefix, then URL-safe base64 of JSON text of a payload of
/// the version this library speaks.
pub open spec fn pairing_uri_valid(uri: Seq<char>) -> bool {
    &&& uri.len() >= pairing_prefix().len()
    &&& uri.subrange(0, pairing_prefix().len() as int) == pairing_prefix()
    &&& base64url_decoded(uri.subrange(pairing_prefix().len() as int, uri.len() as int)) matches Some(bytes)
    &&& json_parse(bytes) matches Some(t)
    &&& t is Object
    &&& u64_of(t, "v"@) == Ok::<u64, Seq<char>>(PAIRING_VERSION as u64)
    &&& text_of(t, "host"@) is Ok
    &&& u16_of(t, "port"@) is Ok
    &&& text_of(t, "token"@) is Ok
    &&& text_of(t, "fingerprint"@) is Ok
    &&& text_of(t, "name"@) is Ok
}

/// Reads a pairing URI: the prefix, URL-safe base64 of JSON text, and a
/// payload of the version this library speaks.
pub fn parse_pairing_uri(uri: &str) -> (r: Result<PairingPayload, String>)
    ensures
        r matches Ok(p) ==> {
            &&& uri@.len() >= pairing_prefix().len()
            &&& uri@.subrange(0, pairing_prefix().len() as int) == pairing_prefix()
            &&& base64url_decoded(uri@.subrange(pairing_prefix().len() as int, uri@.len() as int)) matches Some(bytes)
            &&& json_parse(bytes) matches Some(t)
            &&& p.v == PAIRING_VERSION
            &&& text_of(t, "host"@) == Ok::<Seq<char>, Seq<char>>(p.host@)
            &&& u16_of(t, "port"@) == Ok::<u16, Seq<char>>(p.port)
            &&& text_of(t, "token"@) == Ok::<Seq<char>, Seq<char>>(p.token@)
            &&& text_of(t, "fingerprint"@) == Ok::<Seq<char>, Seq<char>>(p.fingerprint@)
            &&& text_of(t, "name"@) == Ok::<Seq<char>, Seq<char>>(p.name@)
        },
        r is Err ==> !pairing_uri_valid(uri@),
{
    let prefix = "zedra://pair?d=";
    let n = uri.unicode_len();
    let plen = prefix.unicode_len();
    if n < plen || uri.substring_char(0, plen).to_owned() != prefix.to_owned() {
        return Err("Invalid pairing URI: expected zedra://pair?d=...".to_owned());
    }
    let encoded = uri.substring_char(plen, n);
    let bytes = match decode_base64url(encoded) {
        Ok(b) => b,
        Err(e) => {
            let mut m = "Failed to decode base64: ".to_owned();
            m.append(e.as_str());
            return Err(m);
        },
    };
    let j = match parse_json(bytes.as_slice()) {
        Some(j) => j,
        None => {
            return Err("pairing payload is not valid JSON".to_owned());
        },
    };
    let payload = match PairingPayload::from_json(&j) {
        Ok(p) => p,
        Err(e) => {
            return Err(e);
        },
    };
    if payload.v != PAIRING_VERSION {
        return Err("Unsupported pairing protocol version".to_owned());
    }
    Ok(payload)
}

/// `random` with the version-4 and variant bits of a UUID set.
pub open spec fn uuid_bytes(random: Seq<u8>) -> Seq<u8> {
    random.update(6, (random[6] & 0x0f) | 0x40).update(8, (random[8] & 0x3f) | 0x80)
}

/// The text of a version-4 UUID made from `random`: five groups of 8, 4, 4, 4
/// and 12 lowercase hexadecimal digits.
pub open spec fn uuid_text(random: Seq<u8>) -> Seq<char> {
    let b = uuid_bytes(random);
    hex_of(b.subrange(0, 4)) + "-"@ + hex_of(b.subrange(4, 6)) + "-"@ + hex_of(b.subrange(6, 8))
        + "-"@ + hex_of(b.subrange(8, 10)) + "-"@ + hex_of(b.subrange(10, 16))
}

fn bytes_between(b: &Vec<u8>, from: usize, to: usize) -> (r: Vec<u8>)
    requires
        from <= to <= b@.len(),
    ensures
        r@ == b@.subrange(from as int, to as int),
{
    let mut out: Vec<u8> = Vec::new();
    let mut i = from;
    while i < to
        invariant
            from <= i <= to <= b@.len(),
            out@ == b@.subrange(from as int, i as int),
        decreases to - i,
    {
        out.push(b[i]);
        i = i + 1;
        assert(out@ =~= b@.subrange(from as int, i as int));
    }
    out
}

/// A version-4 UUID made from 16 random bytes, to identify a paired device.
pub fn uuid_v4(random: &[u8; 16]) -> (r: String)
    ensures
        r@ == uuid_text(random@),
        r@[14] == '4',
        ({
            let c = r@[19];
            c == '8' || c == '9' || c == 'a' || c == 'b'
        }),
{
    let mut b: Vec<u8> = Vec::new();
    let mut i: usize = 0;
    while i < 16
        invariant
            i <= 16,
            random@.len() == 16,
            b@ == random@.subrange(0, i as int),
        decreases 16 - i,
    {
        b.push(random[i]);
        i = i + 1;
        assert(b@ =~= random@.subrange(0, i as int));
    }
    assert(b@ =~= random@);
    let v = b[6];
    b.set(6, (v & 0x0f) | 0x40);
    let w = b[8];
    b.set(8, (w & 0x3f) | 0x80);
    let mut r = hex_text(bytes_between(&b, 0, 4).as_slice());
    r.append("-");
    r.append(hex_text(bytes_between(&b, 4, 6).as_slice()).as_str());
    r.append("-");
    r.append(hex_text(bytes_between(&b, 6, 8).as_slice()).as_str());
    r.append("-");
    r.append(hex_text(bytes_between(&b, 8, 10).as_slice()).as_str());
    r.append("-");
    r.append(hex_text(bytes_between(&b, 10, 16).as_slice()).as_str());
    proof {
        let u = uuid_bytes(random@);
        assert(b@ =~= u);
        reveal_with_fuel(hex_of, 3);
        let g3 = u.subrange(6, 8);
        let g4 = u.subrange(8, 10);
        assert(hex_of(g3) =~= hex_of(g3.drop_last().drop_last()) + seq![hex_digit((g3[0] / 16) as nat), hex_digit((g3[0] % 16) as nat)] + seq![hex_digit((g3[1] / 16) as nat), hex_digit((g3[1] % 16) as nat)]) by {
            assert(g3.drop_last().drop_last() =~= Seq::<u8>::empty());
            assert(g3.drop_last().last() == g3[0]);
        }
        assert(hex_of(g4) =~= hex_of(g4.drop_last().drop_last()) + seq![hex_digit((g4[0] / 16) as nat), hex_digit((g4[0] % 16) as nat)] + seq![hex_digit((g4[1] / 16) as nat), hex_digit((g4[1] % 16) as nat)]) by {
            assert(g4.drop_last().drop_last() =~= Seq::<u8>::empty());
            assert(g4.drop_last().last() == g4[0]);
        }
        assert((((v & 0x0f) | 0x40) / 16) == 4) by (bit_vector);
        let hi = (((w & 0x3f) | 0x80) / 16);
        assert(8 <= hi <= 11) by (bit_vector)
            requires
                hi == (((w & 0x3f) | 0x80) / 16),
        ;
        let h1 = hex_of(u.subrange(0, 4));
        let h2 = hex_of(u.subrange(4, 6));
        let h3 = hex_of(g3);
        let h4 = hex_of(g4);
        lemma_hex_len(u.subrange(0, 4));
        lemma_hex_len(u.subrange(4, 6));
        lemma_hex_len(g3);
        lemma_hex_len(g4);
        assert(g3[0] == (v & 0x0f) | 0x40);
        assert(g4[0] == (w & 0x3f) | 0x80);
        assert(h3[0] == '4');
        reveal_strlit("-");
        assert("-"@ =~= seq!['-']);
        let rest = h3 + "-"@ + h4;
        assert(r@ =~= (h1 + "-"@ + h2 + "-"@) + rest + "-"@ + hex_of(u.subrange(10, 16)));
        assert(rest[0] == h3[0]);
        assert(rest[5] == h4[0]);
        assert(r@[14] == h3[0]);
        assert(r@[19] == h4[0]);
    }
    r
}

/// How a saved host is logged into.
pub enum SavedAuthMethod {
    Password { password: String },
    PublicKey { private_key_pem: String },
}

/// Host credentials a device keeps after pairing.
pub struct SavedHost {
    pub id: String,
    pub name: String,
    pub host: String,
    pub port: u16,
    pub fingerprint: String,
    pub username: String,
    pub auth_method: SavedAuthMethod,
}

/// The client side of the SSH handshake: it accepts the server's key when
/// its fingerprint is the one learned at pairing, or any key when none was.
pub struct ZedraSSHClient {
    expected_fingerprint: Option<String>,
}

impl ZedraSSHClient {
    pub fn new(expected_fingerprint: Option<String>) -> (r: ZedraSSHClient)
        ensures
            r.expected() == expected_fingerprint,
    {
        ZedraSSHClient { expected_fingerprint }
    }

    pub closed spec fn expected(&self) -> Option<String> {
        self.expected_fingerprint
    }

    /// Whether a server key with this SHA-256 fingerprint is accepted.
    pub fn accepts_fingerprint(&self, fingerprint: &str) -> (r: bool)
        ensures
            r == match self.expected() {
                Some(e) => e@ == fingerprint@,
                None => true,
            },
    {
        match &self.expected_fingerprint {
            Some(e) => *e == fingerprint.to_owned(),
            None => true,
        }
    }
}

} // verus!
