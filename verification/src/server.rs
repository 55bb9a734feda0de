//! The companion server's own rules: API keys, bearer authentication, error statuses,
//! playback-plan requests, byte-range headers and expiring media tickets.
use vstd::prelude::*;
use sha2::Digest;
use subtle::ConstantTimeEq;
use crate::player::{parse_url, url_parse};
use crate::text::{chars_of, decimal, decimal_chars, extend_chars, same_chars, split_chars, split_on, string_of, views};

verus! {

/// The SHA-256 digest of a byte string, as the `sha2` crate computes it.
pub uninterp spec fn sha256_of(data: Seq<u8>) -> Seq<u8>;

/// Calls `sha2::Sha256::digest`; the digest is named `sha256_of` and is 32 bytes long.
#[verifier::external_body]
pub(crate) fn sha256(data: &[u8]) -> (r: Vec<u8>)
    ensures
        r@ == sha256_of(data@),
        r@.len() == 32,
{
    sha2::Sha256::digest(data).to_vec()
}

/// Calls `subtle`'s `ConstantTimeEq::ct_eq` on two byte slices and converts the `Choice`
/// to `bool`: true exactly when the slices have the same length and the same bytes.
#[verifier::external_body]
fn constant_time_equal(a: &[u8], b: &[u8]) -> (r: bool)
    ensures
        r == (a@ == b@),
{
    bool::from(a.ct_eq(b))
}

/// A printable, non-space ASCII byte.
pub open spec fn ascii_graphic(b: u8) -> bool {
    0x21 <= b && b <= 0x7e
}

/// An API key is 32 to 1024 bytes long and holds printable non-space ASCII only.
pub open spec fn valid_api_key(key: Seq<u8>) -> bool {
    32 <= key.len() <= 1024 && forall|i: int| 0 <= i < key.len() ==> ascii_graphic(#[trigger] key[i])
}

/// The digest the server keeps of its API key, when the key is acceptable.
pub fn api_key_digest(api_key: &str) -> (r: Option<Vec<u8>>)
    ensures
        r is Some <==> valid_api_key(vstd::utf8::encode_utf8(api_key@)),
        r matches Some(d) ==> d@ == sha256_of(vstd::utf8::encode_utf8(api_key@)),
{
    let bytes = api_key.as_bytes();
    if bytes.len() < 32 || bytes.len() > 1024 {
        return None;
    }
    let mut i: usize = 0;
    while i < bytes.len()
        invariant
            bytes@ == vstd::utf8::encode_utf8(api_key@),
            i <= bytes@.len(),
            forall|q: int| 0 <= q < i ==> ascii_graphic(#[trigger] bytes@[q]),
        decreases bytes@.len() - i,
    {
        if bytes[i] < 0x21 || bytes[i] > 0x7e {
            return None;
        }
        i = i + 1;
    }
    Some(sha256(bytes))
}

/// The token of an `Authorization` header value that starts with `Bearer `.
pub open spec fn bearer_token(header: Seq<char>) -> Option<Seq<char>> {
    if header.len() >= 7 && header.subrange(0, 7) == "Bearer "@ {
        Some(header.subrange(7, header.len() as int))
    } else {
        None
    }
}

/// A request is authorized when its bearer token is at most 1024 bytes long and its
/// SHA-256 digest equals the stored digest of the API key.
pub open spec fn authorized(header: Option<Seq<char>>, key_digest: Seq<u8>) -> bool {
    match header {
        Some(h) => match bearer_token(h) {
            Some(token) => vstd::utf8::encode_utf8(token).len() <= 1024
                && sha256_of(vstd::utf8::encode_utf8(token)) == key_digest,
            None => false,
        },
        None => false,
    }
}

/// Whether an `Authorization` header value carries the server's API key.
pub fn authorize(header: Option<&str>, key_digest: &[u8]) -> (r: bool)
    ensures
        r == authorized(match header {
            Some(h) => Some(h@),
            None => None::<Seq<char>>,
        }, key_digest@),
{
    let h = match header {
        Some(h) => chars_of(h),
        None => return false,
    };
    if h.len() < 7 {
        return false;
    }
    let mut head: Vec<char> = Vec::new();
    let mut i: usize = 0;
    while i < 7
        invariant
            h@.len() >= 7,
            i <= 7,
            head@ == h@.subrange(0, i as int),
        decreases 7 - i,
    {
        head.push(h[i]);
        i = i + 1;
    }
    if !same_chars(head.as_slice(), "Bearer ") {
        return false;
    }
    let mut token: Vec<char> = Vec::new();
    let mut k: usize = 7;
    while k < h.len()
        invariant
            7 <= k <= h@.len(),
            token@ == h@.subrange(7, k as int),
        decreases h@.len() - k,
    {
        token.push(h[k]);
        k = k + 1;
    }
    let text = string_of(token.as_slice());
    let bytes = text.as_str().as_bytes();
    if bytes.len() > 1024 {
        return false;
    }
    let digest = sha256(bytes);
    constant_time_equal(digest.as_slice(), key_digest)
}

/// What kind of failure a request met.
#[derive(Clone, Copy, Debug, PartialEq, Eq)]
pub enum ErrorCode {
    InvalidInput,
    UnsupportedTransport,
    UnsupportedResource,
    ConfigurationRequired,
    Forbidden,
    NotFound,
    Conflict,
    Busy,
    Timeout,
    Storage,
    Media,
    Upstream,
}

/// A structured application error.
#[derive(Debug)]
pub struct ServiceError {
    pub code: ErrorCode,
    pub message: String,
}

/// An application error as the HTTP layer answers it.
#[derive(Debug)]
pub struct ApiError(pub ServiceError);

/// The HTTP status that answers an error code.
pub open spec fn status_of(code: ErrorCode) -> u16 {
    match code {
        ErrorCode::InvalidInput | ErrorCode::UnsupportedTransport | ErrorCode::UnsupportedResource
        | ErrorCode::ConfigurationRequired => 400,
        ErrorCode::Forbidden => 403,
        ErrorCode::NotFound => 404,
        ErrorCode::Conflict => 409,
        ErrorCode::Busy => 429,
        ErrorCode::Timeout => 504,
        ErrorCode::Storage => 500,
        _ => 502,
    }
}

impl ApiError {
    /// The HTTP status of the response for this error.
    pub fn status(&self) -> (s: u16)
        ensures
            s == status_of(self.0.code),
    {
        match self.0.code {
            ErrorCode::InvalidInput | ErrorCode::UnsupportedTransport | ErrorCode::UnsupportedResource
            | ErrorCode::ConfigurationRequired => 400,
            ErrorCode::Forbidden => 403,
            ErrorCode::NotFound => 404,
            ErrorCode::Conflict => 409,
            ErrorCode::Busy => 429,
            ErrorCode::Timeout => 504,
            ErrorCode::Storage => 500,
            _ => 502,
        }
    }
}

fn error(code: ErrorCode, message: &str) -> (e: ServiceError)
    ensures
        e.code == code,
        e.message@ == message@,
{
    ServiceError { code, message: string_of(chars_of(message).as_slice()) }
}

/// How a playback plan is prepared: with the saved resume state of an item's video, or
/// from the start when neither is named.
#[derive(Debug, PartialEq, Eq)]
pub enum PlanRoute<K, V> {
    Resume(K, V),
    Fresh,
}

/// A plan request names both the item and its video, or neither.
pub fn plan_route<K, V>(key: Option<K>, video: Option<V>) -> (r: Result<PlanRoute<K, V>, ServiceError>)
    ensures
        match (key, video) {
            (Some(k), Some(v)) => r == Ok::<PlanRoute<K, V>, ServiceError>(PlanRoute::Resume(k, v)),
            (None, None) => r == Ok::<PlanRoute<K, V>, ServiceError>(PlanRoute::Fresh),
            _ => r matches Err(e) && e.code == ErrorCode::InvalidInput
                && e.message@ == "provide both key and video_id to recover resume state"@,
        },
{
    match (key, video) {
        (Some(k), Some(v)) => Ok(PlanRoute::Resume(k, v)),
        (None, None) => Ok(PlanRoute::Fresh),
        _ => Err(error(ErrorCode::InvalidInput, "provide both key and video_id to recover resume state")),
    }
}

/// `bytes first-last/total` for a partial response.
pub open spec fn content_range_of(start: nat, length: nat, total: nat) -> Seq<char> {
    "bytes "@ + decimal(start) + "-"@ + decimal((start + length - 1) as nat) + "/"@ + decimal(total)
}

/// The `Content-Range` header of a partial response of `length` bytes from `start`.
pub fn content_range(start: u64, length: u64, total: u64) -> (r: String)
    requires
        length >= 1,
        start + length <= u64::MAX,
    ensures
        r@ == content_range_of(start as nat, length as nat, total as nat),
{
    let mut out = chars_of("bytes ");
    extend_chars(&mut out, decimal_chars(start).as_slice());
    extend_chars(&mut out, chars_of("-").as_slice());
    extend_chars(&mut out, decimal_chars(start + length - 1).as_slice());
    extend_chars(&mut out, chars_of("/").as_slice());
    extend_chars(&mut out, decimal_chars(total).as_slice());
    string_of(out.as_slice())
}

/// The `Content-Range` header that answers an unsatisfiable range.
pub fn unsatisfiable_range(total: u64) -> (r: String)
    ensures
        r@ == "bytes */"@ + decimal(total as nat),
{
    let mut out = chars_of("bytes */");
    extend_chars(&mut out, decimal_chars(total).as_slice());
    string_of(out.as_slice())
}

/// The server's API key, sent as a bearer token, authorizes a request; every authorized
/// request carries a bearer token whose digest is the key's digest, and a request without an
/// `Authorization` header is refused.
pub proof fn lemma_api_key_authorizes(key: Seq<char>, header: Seq<char>)
    requires
        valid_api_key(vstd::utf8::encode_utf8(key)),
    ensures
        authorized(Some("Bearer "@ + key), sha256_of(vstd::utf8::encode_utf8(key))),
        authorized(Some(header), sha256_of(vstd::utf8::encode_utf8(key))) ==> (bearer_token(header) matches Some(t)
            && sha256_of(vstd::utf8::encode_utf8(t)) == sha256_of(vstd::utf8::encode_utf8(key))),
        !authorized(None, sha256_of(vstd::utf8::encode_utf8(key))),
{
    reveal_strlit("Bearer ");
    let h = "Bearer "@ + key;
    assert(h.subrange(0, 7) =~= "Bearer "@);
    assert(h.subrange(7, h.len() as int) =~= key);
}

/// Why a list of allowed web origins was refused, with the entry at fault.
#[derive(Debug, PartialEq, Eq)]
pub enum OriginError {
    /// The entry is not a URL.
    Unparsable(String),
    /// The entry is a URL but not exactly an HTTP(S) origin.
    NotExactOrigin(String),
}

/// An entry names exactly an HTTP(S) origin: it parses with an `http` or `https` scheme and
/// is its own origin's serialization.
pub open spec fn exact_origin(s: Seq<char>) -> bool {
    url_parse(s) matches Some(p) && (p.0 == "http"@ || p.0 == "https"@) && p.4 == s
}

/// The non-empty comma-separated entries of a setting.
pub open spec fn entries_of(value: Seq<char>) -> Seq<Seq<char>> {
    split_on(value, ',').filter(|e: Seq<char>| e.len() > 0)
}

/// The allowed origins: every entry, when all are exact HTTP(S) origins; else the first
/// entry that is not.
pub open spec fn origins_result(entries: Seq<Seq<char>>) -> Result<Seq<Seq<char>>, (bool, Seq<char>)>
    decreases entries.len(),
{
    if entries.len() == 0 {
        Ok(Seq::empty())
    } else if url_parse(entries[0]) is None {
        Err((true, entries[0]))
    } else if !exact_origin(entries[0]) {
        Err((false, entries[0]))
    } else {
        match origins_result(entries.drop_first()) {
            Ok(rest) => Ok(seq![entries[0]] + rest),
            Err(e) => Err(e),
        }
    }
}

/// Read the comma-separated list of web origins allowed to call the API.
pub fn allowed_origins(value: &str) -> (r: Result<Vec<String>, OriginError>)
    ensures
        match r {
            Ok(list) => origins_result(entries_of(value@)) == Ok::<Seq<Seq<char>>, (bool, Seq<char>)>(list@.map_values(|s: String| s@)),
            Err(OriginError::Unparsable(e)) => origins_result(entries_of(value@)) == Err::<Seq<Seq<char>>, (bool, Seq<char>)>((true, e@)),
            Err(OriginError::NotExactOrigin(e)) => origins_result(entries_of(value@)) == Err::<Seq<Seq<char>>, (bool, Seq<char>)>((false, e@)),
        },
{
    let pieces = split_chars(chars_of(value).as_slice(), ',');
    let ghost all = views(pieces@);
    let mut kept: Vec<Vec<char>> = Vec::new();
    let mut i: usize = 0;
    assert(all.take(0).filter(|e: Seq<char>| e.len() > 0) =~= Seq::<Seq<char>>::empty());
    while i < pieces.len()
        invariant
            all == views(pieces@),
            i <= pieces@.len(),
            views(kept@) == all.take(i as int).filter(|e: Seq<char>| e.len() > 0),
        decreases pieces@.len() - i,
    {
        assert(all.take(i + 1).drop_last() =~= all.take(i as int));
        assert(all.take(i + 1).last() == pieces@[i as int]@);
        reveal(Seq::filter);
        if pieces[i].len() > 0 {
            let mut copy: Vec<char> = Vec::new();
            extend_chars(&mut copy, pieces[i].as_slice());
            let ghost before = views(kept@);
            let ghost cv = copy@;
            kept.push(copy);
            assert(views(kept@) =~= before.push(cv));
        }
        i = i + 1;
    }
    assert(all.take(pieces@.len() as int) =~= all);
    let ghost entries = views(kept@);
    assert(entries == entries_of(value@));
    let mut out: Vec<String> = Vec::new();
    let mut j: usize = 0;
    assert(entries.skip(0) =~= entries);
    while j < kept.len()
        invariant
            entries == views(kept@),
            entries == entries_of(value@),
            j <= kept@.len(),
            origins_result(entries) == match origins_result(entries.skip(j as int)) {
                Ok(rest) => Ok(out@.map_values(|s: String| s@) + rest),
                Err(e) => Err::<Seq<Seq<char>>, (bool, Seq<char>)>(e),
            },
        decreases kept@.len() - j,
    {
        assert(entries.skip(j as int)[0] == kept@[j as int]@);
        assert(entries.skip(j as int).drop_first() =~= entries.skip(j + 1));
        let text = string_of(kept[j].as_slice());
        match parse_url(text.as_str()) {
            None => return Err(OriginError::Unparsable(text)),
            Some(p) => {
                let scheme = chars_of(p.scheme.as_str());
                let web = same_chars(scheme.as_slice(), "http") || same_chars(scheme.as_slice(), "https");
                let exact = crate::text::equal_chars(chars_of(p.origin.as_str()).as_slice(), kept[j].as_slice());
                if !(web && exact) {
                    return Err(OriginError::NotExactOrigin(text));
                }
                let ghost before = out@.map_values(|s: String| s@);
                let ghost tv = text@;
                out.push(text);
                assert(out@.map_values(|s: String| s@) =~= before.push(tv));
                proof {
                    match origins_result(entries.skip(j + 1)) {
                        Ok(rest) => {
                            assert(before + (seq![tv] + rest) =~= before.push(tv) + rest);
                        },
                        Err(_) => {},
                    }
                }
            },
        }
        j = j + 1;
    }
    assert(entries.skip(j as int) =~= Seq::<Seq<char>>::empty());
    assert(out@.map_values(|s: String| s@) + Seq::<Seq<char>>::empty() =~= out@.map_values(|s: String| s@));
    Ok(out)
}

/// The address the server's own FFmpeg reads media from, by the listener's address: a
/// listener on every address (`0.0.0.0` or `::`) is reached on the loopback address of its
/// family; other addresses must be loopback ones.
#[derive(Clone, Copy, Debug, PartialEq, Eq)]
pub enum ListenIp {
    V4(u8, u8, u8, u8),
    /// An IPv6 address by its eight 16-bit segments.
    V6([u16; 8]),
}

/// The address is unspecified: all zero.
pub open spec fn unspecified(ip: ListenIp) -> bool {
    match ip {
        ListenIp::V4(a, b, c, d) => a == 0 && b == 0 && c == 0 && d == 0,
        ListenIp::V6(s) => forall|i: int| 0 <= i < 8 ==> s[i] == 0,
    }
}

/// The address is a loopback one: `127.0.0.0/8`, or `::1`.
pub open spec fn loopback(ip: ListenIp) -> bool {
    match ip {
        ListenIp::V4(a, _, _, _) => a == 127,
        ListenIp::V6(s) => (forall|i: int| 0 <= i < 7 ==> s[i] == 0) && s[7] == 1,
    }
}

/// The base URL of the listener for the server's own requests, or `None` when the listener's
/// address is neither loopback nor unspecified.
pub open spec fn internal_base_of(ip: ListenIp, port: u16) -> Option<Seq<char>> {
    if !(unspecified(ip) || loopback(ip)) {
        None
    } else {
        match ip {
            ListenIp::V4(a, b, c, d) => Some(if unspecified(ip) {
                "http://127.0.0.1:"@ + decimal(port as nat)
            } else {
                "http://"@ + decimal(a as nat) + "."@ + decimal(b as nat) + "."@ + decimal(c as nat) + "."@
                    + decimal(d as nat) + ":"@ + decimal(port as nat)
            }),
            ListenIp::V6(_) => Some("http://[::1]:"@ + decimal(port as nat)),
        }
    }
}

fn all_zero(s: &[u16; 8], upto: usize) -> (b: bool)
    requires
        upto <= 8,
    ensures
        b == forall|i: int| 0 <= i < upto ==> s@[i] == 0,
{
    let mut i: usize = 0;
    while i < upto
        invariant
            upto <= 8,
            i <= upto,
            forall|k: int| 0 <= k < i ==> s@[k] == 0,
        decreases upto - i,
    {
        if s[i] != 0 {
            return false;
        }
        i = i + 1;
    }
    true
}

/// The base URL for the server's own media requests.
pub fn internal_base(ip: ListenIp, port: u16) -> (r: Option<String>)
    ensures
        match r {
            Some(u) => internal_base_of(ip, port) == Some(u@),
            None => internal_base_of(ip, port) is None,
        },
{
    match ip {
        ListenIp::V4(a, b, c, d) => {
            let zero = a == 0 && b == 0 && c == 0 && d == 0;
            if !zero && a != 127 {
                return None;
            }
            let mut out = chars_of("http://");
            if zero {
                extend_chars(&mut out, chars_of("127.0.0.1").as_slice());
            } else {
                extend_chars(&mut out, decimal_chars(a as u64).as_slice());
                extend_chars(&mut out, chars_of(".").as_slice());
                extend_chars(&mut out, decimal_chars(b as u64).as_slice());
                extend_chars(&mut out, chars_of(".").as_slice());
                extend_chars(&mut out, decimal_chars(c as u64).as_slice());
                extend_chars(&mut out, chars_of(".").as_slice());
                extend_chars(&mut out, decimal_chars(d as u64).as_slice());
            }
            extend_chars(&mut out, chars_of(":").as_slice());
            extend_chars(&mut out, decimal_chars(port as u64).as_slice());
            proof {
                reveal_strlit("http://");
                reveal_strlit("127.0.0.1");
                reveal_strlit("http://127.0.0.1:");
                reveal_strlit(":");
            }
            Some(string_of(out.as_slice()))
        },
        ListenIp::V6(s) => {
            let zero = all_zero(&s, 8);
            let lo = all_zero(&s, 7) && s[7] == 1;
            if !zero && !lo {
                return None;
            }
            let mut out = chars_of("http://[::1]:");
            extend_chars(&mut out, decimal_chars(port as u64).as_slice());
            Some(string_of(out.as_slice()))
        },
    }
}

/// Every origin the server accepts is exactly an HTTP(S) origin, and an accepted list keeps
/// the setting's entries in order.
pub proof fn lemma_accepted_origins_are_exact(entries: Seq<Seq<char>>)
    ensures
        origins_result(entries) matches Ok(list) ==> (list == entries
            && forall|i: int| 0 <= i < list.len() ==> exact_origin(#[trigger] list[i])),
    decreases entries.len(),
{
    if entries.len() > 0 {
        lemma_accepted_origins_are_exact(entries.drop_first());
        if origins_result(entries) is Ok {
            let rest = origins_result(entries.drop_first())->Ok_0;
            assert(seq![entries[0]] + rest =~= entries);
            let list = origins_result(entries)->Ok_0;
            assert forall|i: int| 0 <= i < list.len() implies exact_origin(#[trigger] list[i]) by {
                if i > 0 {
                    assert(list[i] == rest[i - 1]);
                }
            }
        }
    }
}

} // verus!
