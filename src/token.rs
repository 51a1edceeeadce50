use vstd::prelude::*;
use vstd::string::StringSliceAdditionalSpecFns;
use vstd::utf8::{encode_utf8, is_char_boundary};
use crate::clock::{parse_utc_millis, utc_millis_of};
use crate::text::{cut_bytes, find_bytes, find_from, join_cookie_pairs, join_cookies};

verus! {

/// How long before its expiry a cached XSTS token stops being reused, in
/// milliseconds.
pub const XSTS_MARGIN_MS: i64 = 300_000;

/// Failures of the token chain.
#[derive(Clone, Copy, Debug, PartialEq, Eq, Structural)]
pub enum Error {
    /// The login page lacked a value the chain needs.
    ParseError,
    /// A request could not be sent or answered.
    RequestError,
    /// A request could not be encoded.
    SerializationError,
    /// A reply or a cache file could not be decoded.
    DeserializationError,
    /// A cache file could not be read or written.
    CacheError,
}

/// A Microsoft account's login.
pub struct Credentials {
    pub username: String,
    pub password: String,
}

/// A Java (Mojang) bearer token: `token` is the whole `Authorization`
/// value; `expires_at` is in milliseconds since the Unix epoch.
pub struct JavaData {
    pub token: String,
    pub expires_at: i64,
}

/// An XSTS token with the user hash it was issued for.
pub struct XstsData {
    pub xid: Option<String>,
    pub hash: String,
    pub token: String,
    pub expires_at: i64,
}

/// What the login page yields: the cookies to send back, the PPFT form
/// value, and the address the login form posts to.
pub struct PreAuthData {
    pub cookie: String,
    pub ppft: String,
    pub url: String,
}

/// The login form's fields.
pub struct LogUserQuery {
    pub login: String,
    pub loginfmt: String,
    pub passwd: String,
    pub ppft: String,
}

/// What a successful login leaves in the final address's fragment.
pub struct LogUserResponse {
    pub access_token: String,
}

/// Properties of the request that trades the login ticket for a user
/// token.
pub struct RpsTicketPayloadProperties {
    pub auth_method: String,
    pub site_name: String,
    pub rps_ticket: String,
}

/// The request that trades the login ticket for a user token.
pub struct RpsTicketPayload {
    pub relying_party: String,
    pub token_type: String,
    pub properties: RpsTicketPayloadProperties,
}

/// The user token.
pub struct RpsTicketResponse {
    pub token: String,
}

/// Properties of the XSTS authorisation request.
pub struct XstsPayloadProperties {
    pub user_tokens: Vec<String>,
    pub sandbox_id: String,
}

/// The XSTS authorisation request.
pub struct XstsPayload {
    pub relying_party: String,
    pub token_type: String,
    pub properties: XstsPayloadProperties,
}

/// One user claim of an XSTS reply.
pub struct XstsXui {
    pub uhs: String,
    pub xid: Option<String>,
}

/// The claims of an XSTS reply.
pub struct XstsDisplayClaims {
    pub xui: Vec<XstsXui>,
}

/// The XSTS reply.
pub struct XstsResponse {
    pub display_claims: XstsDisplayClaims,
    pub not_after: String,
    pub token: String,
}

/// The Mojang login request.
pub struct JavaPayload {
    pub identity_token: String,
}

/// The Mojang login reply; `expires_in` is in seconds.
pub struct JavaResponse {
    pub access_token: String,
    pub token_type: String,
    pub expires_in: u32,
}

/// How a Java token will be had: from the cache, from a cached XSTS token
/// with one request, or through the whole login chain.
pub enum TokenPlan {
    Cached(JavaData),
    FromXsts(XstsData),
    FullChain,
}

/// Requests a plan sends: none for a cached token, the Mojang login alone
/// after a cached XSTS token, five for the whole chain.
pub open spec fn network_requests(plan: TokenPlan) -> nat {
    match plan {
        TokenPlan::Cached(_) => 0,
        TokenPlan::FromXsts(_) => 1,
        TokenPlan::FullChain => 5,
    }
}

/// A cached Java token is reused while it has not expired.
pub open spec fn java_fresh(expires_at: int, now: int) -> bool {
    expires_at > now
}

/// A cached XSTS token is reused while more than five minutes remain.
pub open spec fn xsts_fresh(expires_at: int, now: int) -> bool {
    expires_at > now + XSTS_MARGIN_MS
}

/// The plan for the cached values at hand.
pub open spec fn spec_plan(java: Option<JavaData>, xsts: Option<XstsData>, now: int) -> TokenPlan {
    match java {
        Some(j) if java_fresh(j.expires_at as int, now) => TokenPlan::Cached(j),
        _ => match xsts {
            Some(x) if xsts_fresh(x.expires_at as int, now) => TokenPlan::FromXsts(x),
            _ => TokenPlan::FullChain,
        },
    }
}

/// Chooses how to obtain a Java token at `now` from what the cache held.
pub fn plan_java_token(java: Option<JavaData>, xsts: Option<XstsData>, now: i64) -> (r:
    TokenPlan)
    ensures
        r == spec_plan(java, xsts, now as int),
{
    match java {
        Some(j) if j.expires_at > now => TokenPlan::Cached(j),
        _ => match xsts {
            Some(x) if x.expires_at as i128 > now as i128 + XSTS_MARGIN_MS as i128 => {
                TokenPlan::FromXsts(x)
            },
            _ => TokenPlan::FullChain,
        },
    }
}

/// Token reuse: a cached Java token with five minutes left costs no
/// request; one that expired a second ago, with no usable XSTS token,
/// costs the whole chain.
pub proof fn lemma_token_reuse(java: JavaData, xsts: Option<XstsData>, now: i64)
    ensures
        java.expires_at == now + 300_000 ==> network_requests(
            spec_plan(Some(java), xsts, now as int),
        ) == 0,
        java.expires_at == now - 1_000 && (xsts matches Some(x) ==> !xsts_fresh(
            x.expires_at as int,
            now as int,
        )) ==> network_requests(spec_plan(Some(java), xsts, now as int)) == 5,
{
}

/// `sFTTag:'`, which opens the PPFT input of the login page.
pub open spec fn sft_tag() -> Seq<u8> {
    seq![115u8, 70, 84, 84, 97, 103, 58, 39]
}

/// `value="`, which opens the PPFT value.
pub open spec fn value_open() -> Seq<u8> {
    seq![118u8, 97, 108, 117, 101, 61, 34]
}

/// `"/>'`, which closes the PPFT value.
pub open spec fn value_close() -> Seq<u8> {
    seq![34u8, 47, 62, 39]
}

/// `urlPost:'`, which opens the login form's address.
pub open spec fn url_post_open() -> Seq<u8> {
    seq![117u8, 114, 108, 80, 111, 115, 116, 58, 39]
}

/// `'`, which closes the login form's address.
pub open spec fn quote() -> Seq<u8> {
    seq![39u8]
}

/// Where the PPFT value lies in the page's bytes: after the first
/// `value="` that follows `sFTTag:'`, up to the next `"/>'`.
pub open spec fn ppft_span(h: Seq<u8>) -> Option<(int, int)> {
    match find_from(h, sft_tag(), 0) {
        None => None,
        Some(a) => match find_from(h, value_open(), a) {
            None => None,
            Some(v) => match find_from(h, value_close(), v + 7) {
                None => None,
                Some(e) => Some((v + 7, e)),
            },
        },
    }
}

/// Where the login form's address lies in the page's bytes: after the
/// first `urlPost:'`, up to the next `'`.
pub open spec fn url_post_span(h: Seq<u8>) -> Option<(int, int)> {
    match find_from(h, url_post_open(), 0) {
        None => None,
        Some(a) => match find_from(h, quote(), a + 9) {
            None => None,
            Some(e) => Some((a + 9, e)),
        },
    }
}

/// Whether bytes `b..e` of `h` can be cut out as text.
pub open spec fn cuttable(h: Seq<u8>, b: int, e: int) -> bool {
    is_char_boundary(h, e) && is_char_boundary(h.subrange(0, e), b)
}

/// What extracting a span yields: nothing where the span is missing; its
/// text where found and cuttable.
pub open spec fn span_text_post(h: Seq<u8>, span: Option<(int, int)>, r: Option<String>) -> bool {
    match span {
        None => r is None,
        Some((b, e)) => {
            &&& r matches Some(t) ==> encode_utf8(t@) == h.subrange(b, e)
            &&& cuttable(h, b, e) ==> r is Some
        },
    }
}

fn lit_bytes_sft_tag() -> (r: Vec<u8>)
    ensures
        r@ == sft_tag(),
{
    let r = vec![115u8, 70, 84, 84, 97, 103, 58, 39];
    proof {
        assert(r@ =~= sft_tag());
    }
    r
}

fn lit_bytes_value_open() -> (r: Vec<u8>)
    ensures
        r@ == value_open(),
{
    let r = vec![118u8, 97, 108, 117, 101, 61, 34];
    proof {
        assert(r@ =~= value_open());
    }
    r
}

fn lit_bytes_value_close() -> (r: Vec<u8>)
    ensures
        r@ == value_close(),
{
    let r = vec![34u8, 47, 62, 39];
    proof {
        assert(r@ =~= value_close());
    }
    r
}

fn lit_bytes_url_post_open() -> (r: Vec<u8>)
    ensures
        r@ == url_post_open(),
{
    let r = vec![117u8, 114, 108, 80, 111, 115, 116, 58, 39];
    proof {
        assert(r@ =~= url_post_open());
    }
    r
}

fn lit_bytes_quote() -> (r: Vec<u8>)
    ensures
        r@ == quote(),
{
    let r = vec![39u8];
    proof {
        assert(r@ =~= quote());
    }
    r
}

proof fn lemma_find_in_bounds(h: Seq<u8>, p: Seq<u8>, from: int)
    requires
        find_from(h, p, from) is Some,
    ensures
        from <= find_from(h, p, from)->0,
        find_from(h, p, from)->0 + p.len() <= h.len(),
    decreases h.len() - from,
{
    if !(from < 0 || from + p.len() > h.len()) && !(p.len() == 0 || h.subrange(
        from,
        from + p.len(),
    ) == p) {
        lemma_find_in_bounds(h, p, from + 1);
    }
}

/// The PPFT value of the login page.
pub fn extract_ppft(html: &str) -> (r: Option<String>)
    ensures
        span_text_post(html.spec_bytes(), ppft_span(html.spec_bytes()), r),
{
    let h = html.as_bytes();
    let a = match find_bytes(h, lit_bytes_sft_tag().as_slice(), 0) {
        None => return None,
        Some(a) => a,
    };
    let v = match find_bytes(h, lit_bytes_value_open().as_slice(), a) {
        None => return None,
        Some(v) => v,
    };
    let _len: usize = h.len();
    proof {
        lemma_find_in_bounds(h@, value_open(), a as int);
        assert(value_open().len() == 7);
    }
    let b = v + 7;
    let e = match find_bytes(h, lit_bytes_value_close().as_slice(), b) {
        None => return None,
        Some(e) => e,
    };
    proof {
        lemma_find_in_bounds(h@, value_close(), b as int);
    }
    cut_bytes(html, b, e)
}

/// The address the login form posts to.
pub fn extract_url_post(html: &str) -> (r: Option<String>)
    ensures
        span_text_post(html.spec_bytes(), url_post_span(html.spec_bytes()), r),
{
    let h = html.as_bytes();
    let a = match find_bytes(h, lit_bytes_url_post_open().as_slice(), 0) {
        None => return None,
        Some(a) => a,
    };
    let _len: usize = h.len();
    proof {
        lemma_find_in_bounds(h@, url_post_open(), 0);
        assert(url_post_open().len() == 9);
    }
    let b = a + 9;
    let e = match find_bytes(h, lit_bytes_quote().as_slice(), b) {
        None => return None,
        Some(e) => e,
    };
    proof {
        lemma_find_in_bounds(h@, quote(), b as int);
    }
    cut_bytes(html, b, e)
}

/// Reads the login page: the cookie pairs of its `Set-Cookie` values
/// joined by `;`, the PPFT value and the form's address. `ParseError` when
/// either value cannot be found.
pub fn parse_pre_auth(html: &str, set_cookies: &Vec<String>) -> (r: Result<PreAuthData, Error>)
    ensures
        r is Err ==> r == Err::<PreAuthData, Error>(Error::ParseError),
        ppft_span(html.spec_bytes()) is None ==> r is Err,
        url_post_span(html.spec_bytes()) is None ==> r is Err,
        (ppft_span(html.spec_bytes()) matches Some((b, e)) && cuttable(html.spec_bytes(), b, e))
            && (url_post_span(html.spec_bytes()) matches Some((b2, e2)) && cuttable(
            html.spec_bytes(),
            b2,
            e2,
        )) ==> r is Ok,
        r matches Ok(d) ==> {
            &&& d.cookie@ == join_cookie_pairs(set_cookies@.map_values(|s: String| s@))
            &&& span_text_post(
                html.spec_bytes(),
                ppft_span(html.spec_bytes()),
                Some(d.ppft),
            )
            &&& span_text_post(
                html.spec_bytes(),
                url_post_span(html.spec_bytes()),
                Some(d.url),
            )
        },
{
    let ppft = match extract_ppft(html) {
        None => return Err(Error::ParseError),
        Some(p) => p,
    };
    let url = match extract_url_post(html) {
        None => return Err(Error::ParseError),
        Some(u) => u,
    };
    Ok(PreAuthData { cookie: join_cookies(set_cookies), ppft, url })
}

impl LogUserQuery {
    /// The login form: the account name as `login` and `loginfmt`, its
    /// password, and the page's PPFT value.
    pub fn new(credentials: &Credentials, auth: &PreAuthData) -> (r: LogUserQuery)
        ensures
            r.login@ == credentials.username@,
            r.loginfmt@ == credentials.username@,
            r.passwd@ == credentials.password@,
            r.ppft@ == auth.ppft@,
    {
        LogUserQuery {
            login: credentials.username.clone(),
            loginfmt: credentials.username.clone(),
            passwd: credentials.password.clone(),
            ppft: auth.ppft.clone(),
        }
    }
}

impl RpsTicketPayload {
    /// The request trading a login ticket for a user token.
    pub fn for_ticket(ticket: &LogUserResponse) -> (r: RpsTicketPayload)
        ensures
            r.relying_party@ == "http://auth.xboxlive.com"@,
            r.token_type@ == "JWT"@,
            r.properties.auth_method@ == "RPS"@,
            r.properties.site_name@ == "user.auth.xboxlive.com"@,
            r.properties.rps_ticket@ == ticket.access_token@,
    {
        RpsTicketPayload {
            relying_party: String::from_str("http://auth.xboxlive.com"),
            token_type: String::from_str("JWT"),
            properties: RpsTicketPayloadProperties {
                auth_method: String::from_str("RPS"),
                site_name: String::from_str("user.auth.xboxlive.com"),
                rps_ticket: ticket.access_token.clone(),
            },
        }
    }
}

impl XstsPayload {
    /// The XSTS request for a user token.
    pub fn for_user_token(user: &RpsTicketResponse) -> (r: XstsPayload)
        ensures
            r.relying_party@ == "rp://api.minecraftservices.com/"@,
            r.token_type@ == "JWT"@,
            r.properties.user_tokens@.len() == 1,
            r.properties.user_tokens@[0]@ == user.token@,
            r.properties.sandbox_id@ == "RETAIL"@,
    {
        let mut tokens: Vec<String> = Vec::new();
        tokens.push(user.token.clone());
        XstsPayload {
            relying_party: String::from_str("rp://api.minecraftservices.com/"),
            token_type: String::from_str("JWT"),
            properties: XstsPayloadProperties {
                user_tokens: tokens,
                sandbox_id: String::from_str("RETAIL"),
            },
        }
    }
}

impl JavaPayload {
    /// The Mojang login request: identity `XBL3.0 x=<hash>;<token>`.
    pub fn for_xsts(xsts: &XstsData) -> (r: JavaPayload)
        ensures
            r.identity_token@ == "XBL3.0 x="@ + xsts.hash@ + ";"@ + xsts.token@,
    {
        let mut s = String::from_str("XBL3.0 x=");
        s.append(xsts.hash.as_str());
        s.append(";");
        s.append(xsts.token.as_str());
        JavaPayload { identity_token: s }
    }
}

/// `now + seconds` in milliseconds, held at `i64::MAX` where it would not
/// fit.
pub open spec fn expiry_after(now: int, seconds: int) -> int {
    if now + seconds * 1000 > i64::MAX {
        i64::MAX as int
    } else {
        now + seconds * 1000
    }
}

impl JavaData {
    /// The token a Mojang login reply gives at `now`: `<type> <access>`,
    /// expiring `expires_in` seconds later.
    pub fn from_response(response: &JavaResponse, now: i64) -> (r: JavaData)
        ensures
            r.token@ == response.token_type@ + " "@ + response.access_token@,
            r.expires_at == expiry_after(now as int, response.expires_in as int),
    {
        let mut token = response.token_type.clone();
        token.append(" ");
        token.append(response.access_token.as_str());
        let sum: i128 = now as i128 + response.expires_in as i128 * 1000;
        let expires_at: i64 = if sum > i64::MAX as i128 {
            i64::MAX
        } else {
            sum as i64
        };
        JavaData { token, expires_at }
    }

    /// Whether a worker may still use the token at `now`: more than thirty
    /// seconds remain.
    pub fn usable_at(&self, now: i64) -> (r: bool)
        ensures
            r == (self.expires_at > now + 30_000),
    {
        self.expires_at as i128 > now as i128 + 30_000
    }

    /// Whether the cached token may be reused at `now`.
    pub fn fresh_at(&self, now: i64) -> (r: bool)
        ensures
            r == java_fresh(self.expires_at as int, now as int),
    {
        self.expires_at > now
    }
}

impl XstsData {
    /// Whether the cached token may be reused at `now`.
    pub fn fresh_at(&self, now: i64) -> (r: bool)
        ensures
            r == xsts_fresh(self.expires_at as int, now as int),
    {
        self.expires_at as i128 > now as i128 + XSTS_MARGIN_MS as i128
    }

    /// The XSTS token of a reply whose `NotAfter` reads as `expires_at`:
    /// the first user claim gives hash and xid. `DeserializationError` when
    /// `NotAfter` did not read or the reply has no user claim.
    pub fn from_parts(response: &XstsResponse, expires_at: Option<i64>) -> (r: Result<
        XstsData,
        Error,
    >)
        ensures
            (expires_at is None || response.display_claims.xui@.len() == 0) ==> r == Err::<
                XstsData,
                Error,
            >(Error::DeserializationError),
            (expires_at is Some && response.display_claims.xui@.len() > 0) ==> (r matches Ok(d) && {
                let x = response.display_claims.xui@[0];
                &&& d.token@ == response.token@
                &&& d.expires_at == expires_at->0
                &&& d.hash@ == x.uhs@
                &&& (d.xid matches Some(v) ==> (x.xid matches Some(w) && v@ == w@))
                &&& (d.xid is None ==> x.xid is None)
            }),
    {
        let at = match expires_at {
            None => return Err(Error::DeserializationError),
            Some(t) => t,
        };
        if response.display_claims.xui.len() == 0 {
            return Err(Error::DeserializationError);
        }
        let first = &response.display_claims.xui[0];
        let xid = match &first.xid {
            None => None,
            Some(v) => Some(v.clone()),
        };
        Ok(XstsData { xid, hash: first.uhs.clone(), token: response.token.clone(), expires_at: at })
    }

    /// The XSTS token of a reply, its `NotAfter` read by chrono.
    pub fn from_response(response: &XstsResponse) -> (r: Result<XstsData, Error>)
        ensures
            (utc_millis_of(response.not_after@) is None || response.display_claims.xui@.len()
                == 0) ==> r == Err::<XstsData, Error>(Error::DeserializationError),
            (utc_millis_of(response.not_after@) is Some && response.display_claims.xui@.len()
                > 0) ==> (r matches Ok(d) && d.expires_at == utc_millis_of(
                response.not_after@,
            )->0 && d.token@ == response.token@ && d.hash@ == response.display_claims.xui@[0].uhs@),
    {
        let at = parse_utc_millis(response.not_after.as_str());
        XstsData::from_parts(response, at)
    }
}

} // verus!
