use vstd::prelude::*;
use vstd::utf8::*;
use vstd::slice::slice_subrange;
use sha2::{Digest, Sha256};
use subtle::ConstantTimeEq;
use std::sync::{Arc, Mutex, MutexGuard};
use std::time::Instant;
use tokio::sync::{OwnedSemaphorePermit, Semaphore, TryAcquireError};
use crate::rate::{RateWindow, admits, after_request};
use crate::error::{ErrorKind, ProxyError, ProxyErrorView, plain_error};

verus! {

/// SHA-256 of a byte string, as computed by the `sha2` crate.
pub uninterp spec fn sha256(data: Seq<u8>) -> Seq<u8>;

/// Trusted: `Sha256::digest` of the `sha2` crate. The digest is a function of
/// the input bytes alone, which `sha256` names; that it has 32 bytes is the
/// array type.
#[verifier::external_body]
fn sha256_digest(data: &[u8]) -> (r: [u8; 32])
    ensures
        r@ == sha256(data@),
{
    Sha256::digest(data).into()
}

/// Trusted: `ConstantTimeEq::ct_eq` of the `subtle` crate on byte slices,
/// turned into a `bool`. Its source answers 1 exactly when both slices have
/// the same length and the same bytes.
#[verifier::external_body]
fn digests_equal(a: &[u8; 32], b: &[u8; 32]) -> (r: bool)
    ensures
        r == (a@ == b@),
{
    bool::from(a[..].ct_eq(&b[..]))
}

/// Trusted: `std::str::from_utf8`, which accepts exactly the valid UTF-8
/// byte strings and views them unchanged as text.
#[verifier::external_body]
fn utf8_str(bytes: &[u8]) -> (r: Option<&str>)
    ensures
        r is Some <==> valid_utf8(bytes@),
        r matches Some(t) ==> encode_utf8(t@) == bytes@,
{
    std::str::from_utf8(bytes).ok()
}

/// The SHA-256 digest of the UTF-8 bytes of a key.
pub fn hash_key(key: &str) -> (r: [u8; 32])
    ensures
        r@ == sha256(encode_utf8(key@)),
{
    sha256_digest(key.as_bytes())
}

/// Whether a header byte is visible ASCII or a tab: the bytes that
/// `HeaderValue::to_str` accepts.
pub open spec fn is_visible_ascii(b: u8) -> bool {
    (32 <= b && b < 127) || b == 9
}

/// Whether every byte of a header value is visible ASCII.
pub open spec fn all_visible(bytes: Seq<u8>) -> bool {
    forall|i: int| 0 <= i < bytes.len() ==> is_visible_ascii(#[trigger] bytes[i])
}

/// The bytes of `"Bearer "`.
pub open spec fn bearer_prefix() -> Seq<u8> {
    seq![66u8, 101u8, 97u8, 114u8, 101u8, 114u8, 32u8]
}

/// The first values of the two headers that can carry a client's key, as
/// raw bytes.
pub struct AuthHeaders {
    pub x_api_key: Option<Vec<u8>>,
    pub authorization: Option<Vec<u8>>,
}

/// The bytes of an optional header value.
pub open spec fn opt_bytes(o: Option<Vec<u8>>) -> Option<Seq<u8>> {
    match o {
        Some(v) => Some(v@),
        None => None,
    }
}

/// The key a request presents: the `x-api-key` value when it is text, else
/// what follows `Bearer ` in an `authorization` value that is text.
pub open spec fn presented_key(x_api_key: Option<Seq<u8>>, authorization: Option<Seq<u8>>) -> Option<Seq<u8>> {
    if x_api_key is Some && all_visible(x_api_key->0) {
        x_api_key
    } else if authorization is Some && all_visible(authorization->0) && bearer_prefix().is_prefix_of(
        authorization->0,
    ) {
        Some(authorization->0.skip(7))
    } else {
        None
    }
}

impl AuthHeaders {
    /// The key these headers present, as bytes.
    pub open spec fn key_spec(&self) -> Option<Seq<u8>> {
        presented_key(opt_bytes(self.x_api_key), opt_bytes(self.authorization))
    }
}

proof fn lemma_visible_is_utf8(bytes: Seq<u8>)
    requires
        all_visible(bytes),
    ensures
        valid_utf8(bytes),
{
    let chars = Seq::new(bytes.len(), |i: int| bytes[i] as char);
    assert(is_ascii_chars(chars)) by {
        assert forall|i: int| 0 <= i < chars.len() implies '\0' <= #[trigger] chars[i] <= '\u{7f}' by {
            assert(is_visible_ascii(bytes[i]));
        }
    }
    is_ascii_chars_encode_utf8(chars);
    assert forall|i: int| 0 <= i < bytes.len() implies encode_utf8(chars)[i] == bytes[i] by {
        assert(chars[i] as u8 == encode_utf8(chars)[i]);
        assert(is_visible_ascii(bytes[i]));
    }
    assert(encode_utf8(chars) =~= bytes);
    encode_utf8_valid_utf8(chars);
}

/// Whether every byte is visible ASCII.
fn visible(bytes: &[u8]) -> (r: bool)
    ensures
        r == all_visible(bytes@),
{
    let mut i: usize = 0;
    while i < bytes.len()
        invariant
            i <= bytes@.len(),
            forall|j: int| 0 <= j < i ==> is_visible_ascii(#[trigger] bytes@[j]),
        decreases bytes@.len() - i,
    {
        let b = bytes[i];
        if !((32 <= b && b < 127) || b == 9) {
            return false;
        }
        i = i + 1;
    }
    true
}

/// The text of a header value made of visible ASCII.
fn visible_text(bytes: &[u8]) -> (r: String)
    requires
        all_visible(bytes@),
    ensures
        encode_utf8(r@) == bytes@,
{
    proof {
        lemma_visible_is_utf8(bytes@);
    }
    match utf8_str(bytes) {
        Some(t) => t.to_owned(),
        None => vstd::pervasive::unreached(),
    }
}

/// Whether the value begins with `Bearer `.
fn has_bearer_prefix(bytes: &[u8]) -> (r: bool)
    ensures
        r == bearer_prefix().is_prefix_of(bytes@),
{
    if bytes.len() < 7 {
        return false;
    }
    let ok = bytes[0] == 66 && bytes[1] == 101 && bytes[2] == 97 && bytes[3] == 114 && bytes[4]
        == 101 && bytes[5] == 114 && bytes[6] == 32;
    proof {
        if ok {
            assert(bearer_prefix() =~= bytes@.subrange(0, 7));
        } else {
            if bearer_prefix().is_prefix_of(bytes@) {
                assert(bearer_prefix() =~= bytes@.subrange(0, 7));
                assert(bytes@.subrange(0, 7)[0] == bytes@[0]);
                assert(bytes@.subrange(0, 7)[1] == bytes@[1]);
                assert(bytes@.subrange(0, 7)[2] == bytes@[2]);
                assert(bytes@.subrange(0, 7)[3] == bytes@[3]);
                assert(bytes@.subrange(0, 7)[4] == bytes@[4]);
                assert(bytes@.subrange(0, 7)[5] == bytes@[5]);
                assert(bytes@.subrange(0, 7)[6] == bytes@[6]);
            }
        }
    }
    ok
}

/// The key that the request headers present: the `x-api-key` header when
/// it is text, else the part after `Bearer ` of the `authorization` header
/// when that is text.
pub fn extract_key(headers: &AuthHeaders) -> (r: Option<String>)
    ensures
        r is Some <==> headers.key_spec() is Some,
        r matches Some(k) ==> encode_utf8(k@) == headers.key_spec()->0,
{
    if let Some(value) = &headers.x_api_key {
        if visible(value.as_slice()) {
            return Some(visible_text(value.as_slice()));
        }
    }
    if let Some(value) = &headers.authorization {
        let bytes = value.as_slice();
        if visible(bytes) && has_bearer_prefix(bytes) {
            let rest = slice_subrange(bytes, 7, bytes.len());
            proof {
                assert(rest@ =~= bytes@.skip(7));
                assert forall|i: int| 0 <= i < rest@.len() implies is_visible_ascii(#[trigger] rest@[i]) by {
                    assert(rest@[i] == bytes@[i + 7]);
                }
            }
            return Some(visible_text(rest));
        }
    }
    None
}


#[verifier::external_type_specification]
#[verifier::external_body]
#[verifier::reject_recursive_types(T)]
pub struct ExMutex<T: ?Sized>(std::sync::Mutex<T>);

#[verifier::external_type_specification]
#[verifier::external_body]
#[verifier::reject_recursive_types(T)]
pub struct ExMutexGuard<'a, T: ?Sized + 'a>(std::sync::MutexGuard<'a, T>);

#[verifier::external_type_specification]
#[verifier::external_body]
pub struct ExInstant(std::time::Instant);

#[verifier::external_type_specification]
#[verifier::external_body]
pub struct ExSemaphore(tokio::sync::Semaphore);

#[verifier::external_type_specification]
#[verifier::external_body]
pub struct ExOwnedSemaphorePermit(tokio::sync::OwnedSemaphorePermit);

#[verifier::external_type_specification]
#[verifier::external_body]
pub struct ExTryAcquireError(tokio::sync::TryAcquireError);

/// Trusted: `std::sync::Mutex::new`. The window it guards is hidden from
/// the proofs from here on.
#[verifier::external_body]
fn new_window_lock(window: RateWindow) -> Mutex<RateWindow> {
    Mutex::new(window)
}

/// Trusted: `std::sync::Mutex::lock`. A poisoned lock is taken over as it
/// stands: only verified code, which does not panic, ever holds this lock.
#[verifier::external_body]
fn lock_window(lock: &Mutex<RateWindow>) -> MutexGuard<'_, RateWindow> {
    match lock.lock() {
        Ok(guard) => guard,
        Err(poisoned) => poisoned.into_inner(),
    }
}

/// Trusted: `DerefMut::deref_mut` of `MutexGuard`, the window the held lock
/// guards. Nothing is stated of its contents, which other requests change.
#[verifier::external_body]
fn guarded_window<'a, 'b>(guard: &'b mut MutexGuard<'a, RateWindow>) -> &'b mut RateWindow {
    &mut **guard
}

/// Trusted: `std::time::Instant::now`. The time is nothing the proofs know.
#[verifier::external_body]
fn instant_now() -> Instant {
    Instant::now()
}

/// Trusted: `Instant::elapsed`, in whole nanoseconds (saturating at the
/// largest `u64`, some 584 years). Nothing is stated of the value, which is
/// the time.
#[verifier::external_body]
fn nanos_since(start: &Instant) -> u64 {
    u64::try_from(start.elapsed().as_nanos()).unwrap_or(u64::MAX)
}

/// The number of permits a semaphore was created with. It is fixed at
/// creation; how many of them are free at a moment is not named.
pub uninterp spec fn semaphore_capacity(semaphore: Semaphore) -> nat;

/// Trusted: `tokio::sync::Semaphore::new`, which creates a semaphore with
/// the given number of permits and panics above `Semaphore::MAX_PERMITS`,
/// that is `usize::MAX >> 3`.
#[verifier::external_body]
fn new_semaphore(permits: usize) -> (r: Semaphore)
    requires
        permits <= usize::MAX / 8,
    ensures
        semaphore_capacity(r) == permits,
{
    Semaphore::new(permits)
}

/// Trusted: `Semaphore::try_acquire_owned` of `tokio`. Whether a permit is
/// left depends on the permits other requests hold, so nothing is stated of
/// the outcome.
#[verifier::external_body]
fn try_acquire_permit(semaphore: Arc<Semaphore>) -> Result<OwnedSemaphorePermit, TryAcquireError> {
    semaphore.try_acquire_owned()
}

/// A configured client: its id, the digest of its key, the routes it may
/// use and its local limits.
pub struct ClientIdentity {
    pub id: String,
    key_hash: [u8; 32],
    allowed_routes: Vec<String>,
    limiter: Mutex<RateWindow>,
    requests_per_minute: usize,
    concurrency: Arc<Semaphore>,
    started: Instant,
}

/// An admitted request of a client; the client's concurrency slot is held
/// until it is dropped.
pub struct ClientPermit {
    pub identity: Arc<ClientIdentity>,
    _permit: OwnedSemaphorePermit,
}

impl ClientPermit {
    /// The client that holds the permit.
    pub closed spec fn identity_spec(&self) -> Arc<ClientIdentity> {
        self.identity
    }

    /// The client that holds the permit, as its public `identity` field
    /// holds it.
    pub fn client(&self) -> (r: &Arc<ClientIdentity>)
        ensures
            *r == self.identity_spec(),
    {
        &self.identity
    }
}

impl ClientIdentity {
    /// The client's id.
    pub closed spec fn id_spec(&self) -> Seq<char> {
        self.id@
    }

    /// The client's id, as its public `id` field holds it.
    pub fn client_id(&self) -> (r: &str)
        ensures
            r@ == self.id_spec(),
    {
        self.id.as_str()
    }

    /// The SHA-256 digest of the client's key.
    pub closed spec fn key_hash_spec(&self) -> Seq<u8> {
        self.key_hash@
    }

    /// The routes the client may use; none means every route.
    pub closed spec fn allowed_routes_spec(&self) -> Seq<Seq<char>> {
        crate::text::texts(self.allowed_routes@)
    }

    /// The number of requests the client may make in a minute.
    pub closed spec fn requests_per_minute_spec(&self) -> nat {
        self.requests_per_minute as nat
    }

    /// The number of requests of the client that may run at once: the
    /// permits its semaphore was created with.
    pub closed spec fn concurrency_spec(&self) -> nat {
        semaphore_capacity(*self.concurrency)
    }

    /// Whether the client may use the route: when no route is listed, or
    /// when the route is listed.
    pub fn allows_route(&self, route: &str) -> (r: bool)
        ensures
            r == (self.allowed_routes_spec().len() == 0 || self.allowed_routes_spec().contains(route@)),
    {
        let wanted = route.to_owned();
        let n = self.allowed_routes.len();
        if n == 0 {
            return true;
        }
        let mut i: usize = 0;
        while i < n
            invariant
                n == self.allowed_routes@.len(),
                i <= n,
                wanted@ == route@,
                forall|j: int| 0 <= j < i ==> self.allowed_routes@[j]@ != route@,
            decreases n - i,
        {
            if self.allowed_routes[i] == wanted {
                proof {
                    assert(self.allowed_routes_spec()[i as int] == route@);
                }
                return true;
            }
            i = i + 1;
        }
        proof {
            if self.allowed_routes_spec().contains(route@) {
                let k = choose|k: int| 0 <= k < self.allowed_routes_spec().len() && self.allowed_routes_spec()[k] == route@;
                assert(self.allowed_routes@[k]@ == route@);
            }
        }
        false
    }

    /// Checks a request at `now` against the client's request window: it
    /// is admitted when fewer than `requests_per_minute` requests remain in
    /// the window once the expired ones are dropped, and then counts in it.
    /// A refusal is the rate error with a retry hint of one second.
    pub fn admit_request(&self, window: &mut RateWindow, now: u64) -> (r: Result<(), ProxyError>)
        ensures
            (r is Ok) == admits(old(window)@, now, self.requests_per_minute_spec()),
            final(window)@ == after_request(old(window)@, now, self.requests_per_minute_spec()),
            r matches Err(e) ==> e@ == rate_exceeded(),
    {
        if window.try_admit(now, self.requests_per_minute) {
            Ok(())
        } else {
            let mut error = ProxyError::new(ErrorKind::RateLimit, "client request rate exceeded");
            error.retry_after_seconds = Some(1);
            Err(error)
        }
    }

    /// Turns the outcome of taking a concurrency permit into the admitted
    /// request of this client, or the concurrency error when no permit was
    /// free.
    pub fn grant_permit(
        self: &Arc<Self>,
        permit: Result<OwnedSemaphorePermit, TryAcquireError>,
    ) -> (r: Result<ClientPermit, ProxyError>)
        ensures
            (r is Ok) == (permit is Ok),
            r matches Ok(p) ==> p.identity_spec() == *self,
            r matches Err(e) ==> e@ == concurrency_exceeded(),
    {
        match permit {
            Ok(permit) => Ok(ClientPermit { identity: self.clone(), _permit: permit }),
            Err(_) => Err(ProxyError::new(ErrorKind::RateLimit, "client concurrency exceeded")),
        }
    }

    /// Admits a request of this client: at most `requests_per_minute` in any
    /// minute, and one concurrency slot held while the request runs. The
    /// clock is read, the shared window checked with [`Self::admit_request`]
    /// under its lock, and then a permit of the client's own semaphore taken
    /// and handed to [`Self::grant_permit`].
    pub fn acquire(self: &Arc<Self>) -> (r: Result<ClientPermit, ProxyError>)
        ensures
            r matches Ok(p) ==> p.identity_spec() == *self,
            r matches Err(e) ==> e@ == rate_exceeded() || e@ == concurrency_exceeded(),
            self.requests_per_minute_spec() == 0 ==> (r matches Err(e) && e@ == rate_exceeded()),
    {
        let now = nanos_since(&self.started);
        let admitted = {
            let mut guard = lock_window(&self.limiter);
            let window = guarded_window(&mut guard);
            self.admit_request(window, now)
        };
        match admitted {
            Err(error) => Err(error),
            Ok(()) => self.grant_permit(try_acquire_permit(self.concurrency.clone())),
        }
    }
}

/// The error of a request refused by the client's request window.
pub open spec fn rate_exceeded() -> ProxyErrorView {
    ProxyErrorView {
        retry_after_seconds: Some(1u64),
        ..plain_error(ErrorKind::RateLimit, "client request rate exceeded"@)
    }
}

/// The error of a request refused for want of a free concurrency slot.
pub open spec fn concurrency_exceeded() -> ProxyErrorView {
    plain_error(ErrorKind::RateLimit, "client concurrency exceeded"@)
}

/// A client as configured, with its key secret already looked up: the key,
/// or the error that looking it up gave.
pub struct ClientConfig {
    pub id: String,
    pub key: Result<String, ProxyError>,
    pub allowed_routes: Vec<String>,
    pub requests_per_minute: u32,
    pub concurrent_requests: u32,
}

/// The error a client's configuration is refused with, if any: the error of
/// looking up its key, or a key shorter than 24 bytes.
pub open spec fn config_failure(c: ClientConfig) -> Option<ProxyErrorView> {
    match c.key {
        Err(e) => Some(e@),
        Ok(k) => if encode_utf8(k@).len() < 24 {
            Some(
                plain_error(
                    ErrorKind::Internal,
                    "client "@ + c.id@ + " key must be at least 24 bytes"@,
                ),
            )
        } else {
            None
        },
    }
}

/// The error of the first refused configuration, if any.
pub open spec fn first_failure(cs: Seq<ClientConfig>) -> Option<ProxyErrorView>
    decreases cs.len(),
{
    if cs.len() == 0 {
        None
    } else {
        match config_failure(cs[0]) {
            Some(e) => Some(e),
            None => first_failure(cs.drop_first()),
        }
    }
}

/// Whether a client identity was built from a configuration with an
/// accepted key.
pub open spec fn built_from(c: Arc<ClientIdentity>, config: ClientConfig) -> bool {
    &&& config.key is Ok
    &&& c.id_spec() == config.id@
    &&& c.key_hash_spec() == sha256(encode_utf8(config.key->Ok_0@))
    &&& c.allowed_routes_spec() == crate::text::texts(config.allowed_routes@)
    &&& c.requests_per_minute_spec() == config.requests_per_minute as nat
    &&& c.concurrency_spec() == config.concurrent_requests as nat
}

/// Whether every configuration up to and including index `i` is accepted.
pub open spec fn accepted_through(cs: Seq<ClientConfig>, i: int) -> bool {
    forall|j: int| 0 <= j <= i ==> config_failure(#[trigger] cs[j]) is None
}

/// The configured clients, which requests authenticate against.
pub struct AuthRegistry {
    clients: Vec<Arc<ClientIdentity>>,
}

/// The first client, from index `from` on, whose key digest is `digest`.
pub open spec fn first_match(clients: Seq<Arc<ClientIdentity>>, digest: Seq<u8>, from: int) -> Option<int>
    decreases clients.len() - from,
{
    if from < 0 || from >= clients.len() {
        None
    } else if clients[from].key_hash_spec() == digest {
        Some(from)
    } else {
        first_match(clients, digest, from + 1)
    }
}

proof fn lemma_first_failure_prefix(cs: Seq<ClientConfig>, i: int)
    requires
        0 <= i < cs.len(),
        forall|j: int| 0 <= j < i ==> config_failure(#[trigger] cs[j]) is None,
    ensures
        config_failure(cs[i]) is Some ==> first_failure(cs) == config_failure(cs[i]),
        first_failure(cs) == first_failure(cs.subrange(i, cs.len() as int)),
    decreases i,
{
    if i > 0 {
        let rest = cs.drop_first();
        assert forall|j: int| 0 <= j < i - 1 implies config_failure(#[trigger] rest[j]) is None by {
            assert(rest[j] == cs[j + 1]);
        }
        lemma_first_failure_prefix(rest, i - 1);
        assert(config_failure(cs[0]) is None);
        assert(rest[i - 1] == cs[i]);
        assert(rest.subrange(i - 1, rest.len() as int) =~= cs.subrange(i, cs.len() as int));
    } else {
        assert(cs.subrange(0, cs.len() as int) =~= cs);
    }
}

proof fn lemma_no_failure(cs: Seq<ClientConfig>)
    requires
        forall|j: int| 0 <= j < cs.len() ==> config_failure(#[trigger] cs[j]) is None,
    ensures
        first_failure(cs) is None,
    decreases cs.len(),
{
    if cs.len() > 0 {
        let rest = cs.drop_first();
        assert forall|j: int| 0 <= j < rest.len() implies config_failure(#[trigger] rest[j]) is None by {
            assert(rest[j] == cs[j + 1]);
        }
        lemma_no_failure(rest);
        assert(config_failure(cs[0]) is None);
    }
}

/// A copy of a list of strings.
fn clone_strings(v: &Vec<String>) -> (r: Vec<String>)
    ensures
        r@ == v@,
{
    let mut out: Vec<String> = Vec::new();
    let mut i: usize = 0;
    while i < v.len()
        invariant
            i <= v@.len(),
            out@ == v@.take(i as int),
        decreases v@.len() - i,
    {
        out.push(v[i].clone());
        assert(v@.take(i + 1) =~= v@.take(i as int).push(v@[i as int]));
        i = i + 1;
    }
    assert(v@.take(v@.len() as int) =~= v@);
    out
}

impl AuthRegistry {
    /// The registered clients, in configuration order.
    pub closed spec fn clients(&self) -> Seq<Arc<ClientIdentity>> {
        self.clients@
    }

    /// Builds the registry from the client configurations, in order. The
    /// first configuration whose key could not be looked up, or whose key
    /// is shorter than 24 bytes, refuses the whole registry.
    pub fn new(configs: &[ClientConfig]) -> (r: Result<Self, ProxyError>)
        requires
            forall|i: int|
                0 <= i < configs@.len() && #[trigger] accepted_through(configs@, i) ==> configs@[i].concurrent_requests
                    <= usize::MAX / 8,
        ensures
            r is Err <==> first_failure(configs@) is Some,
            (forall|i: int|
                0 <= i < configs@.len() ==> (#[trigger] configs@[i]).key is Ok && encode_utf8(
                    configs@[i].key->Ok_0@,
                ).len() >= 24) ==> r is Ok,
            r matches Err(e) ==> Some(e@) == first_failure(configs@),
            r matches Ok(reg) ==> reg.clients().len() == configs@.len() && forall|i: int|
                0 <= i < configs@.len() ==> built_from(#[trigger] reg.clients()[i], configs@[i]),
    {
        let mut clients: Vec<Arc<ClientIdentity>> = Vec::new();
        let mut i: usize = 0;
        while i < configs.len()
            invariant
                i <= configs@.len(),
                clients@.len() == i,
                forall|j: int|
                    0 <= j < configs@.len() && #[trigger] accepted_through(configs@, j)
                        ==> configs@[j].concurrent_requests <= usize::MAX / 8,
                forall|j: int| 0 <= j < i ==> config_failure(#[trigger] configs@[j]) is None,
                forall|j: int| 0 <= j < i ==> built_from(#[trigger] clients@[j], configs@[j]),
            decreases configs@.len() - i,
        {
            let config = &configs[i];
            proof {
                lemma_first_failure_prefix(configs@, i as int);
            }
            match &config.key {
                Err(e) => {
                    return Err(e.clone());
                },
                Ok(key) => {
                    if key.as_str().as_bytes().len() < 24 {
                        let mut message = "client ".to_owned();
                        message.append(config.id.as_str());
                        message.append(" key must be at least 24 bytes");
                        return Err(ProxyError::new(ErrorKind::Internal, message.as_str()));
                    }
                    assert(accepted_through(configs@, i as int)) by {
                        assert(config_failure(configs@[i as int]) is None);
                    }
                    let identity = ClientIdentity {
                        id: config.id.clone(),
                        key_hash: hash_key(key.as_str()),
                        allowed_routes: clone_strings(&config.allowed_routes),
                        limiter: new_window_lock(RateWindow::new()),
                        requests_per_minute: config.requests_per_minute as usize,
                        concurrency: Arc::new(new_semaphore(config.concurrent_requests as usize)),
                        started: instant_now(),
                    };
                    clients.push(Arc::new(identity));
                },
            }
            i = i + 1;
        }
        proof {
            lemma_no_failure(configs@);
        }
        Ok(AuthRegistry { clients })
    }

    /// The client whose key the request presents: the first registered
    /// client whose key digest equals the digest of the presented key.
    pub fn authenticate(&self, headers: &AuthHeaders) -> (r: Result<Arc<ClientIdentity>, ProxyError>)
        ensures
            headers.key_spec() is None ==> (r matches Err(e) && e@ == plain_error(
                ErrorKind::Authentication,
                "missing API key"@,
            )),
            headers.key_spec() matches Some(k) ==> match first_match(self.clients(), sha256(k), 0) {
                Some(i) => (r matches Ok(c) && c == self.clients()[i]),
                None => (r matches Err(e) && e@ == plain_error(
                    ErrorKind::Authentication,
                    "invalid API key"@,
                )),
            },
    {
        let key = match extract_key(headers) {
            Some(key) => key,
            None => {
                return Err(ProxyError::new(ErrorKind::Authentication, "missing API key"));
            },
        };
        let candidate = hash_key(key.as_str());
        let n = self.clients.len();
        let mut i: usize = 0;
        while i < n
            invariant
                n == self.clients@.len(),
                i <= n,
                headers.key_spec() is Some,
                candidate@ == sha256(headers.key_spec()->0),
                first_match(self.clients@, candidate@, 0) == first_match(self.clients@, candidate@, i as int),
            decreases n - i,
        {
            if digests_equal(&self.clients[i].key_hash, &candidate) {
                return Ok(self.clients[i].clone());
            }
            i = i + 1;
        }
        Err(ProxyError::new(ErrorKind::Authentication, "invalid API key"))
    }
}


/// Law: a text key in the `x-api-key` header is the key presented,
/// whatever the `authorization` header holds.
pub proof fn lemma_x_api_key_presents(key: Seq<u8>, authorization: Option<Seq<u8>>)
    requires
        all_visible(key),
    ensures
        presented_key(Some(key), authorization) == Some(key),
{
}

/// Law: without a text `x-api-key` header, `authorization: Bearer <key>`
/// presents the key.
pub proof fn lemma_bearer_presents(x_api_key: Option<Seq<u8>>, key: Seq<u8>)
    requires
        all_visible(key),
        x_api_key is None || !all_visible(x_api_key->0),
    ensures
        presented_key(x_api_key, Some(bearer_prefix() + key)) == Some(key),
{
    let value = bearer_prefix() + key;
    assert(bearer_prefix() =~= value.subrange(0, 7));
    assert(value.skip(7) =~= key);
    assert forall|i: int| 0 <= i < value.len() implies is_visible_ascii(#[trigger] value[i]) by {
        if i >= 7 {
            assert(value[i] == key[i - 7]);
        }
    }
}

/// What `first_match` finds: a client with that digest, and none before it.
pub proof fn lemma_first_match(clients: Seq<Arc<ClientIdentity>>, digest: Seq<u8>, from: int)
    requires
        0 <= from,
    ensures
        first_match(clients, digest, from) matches Some(j) ==> from <= j < clients.len()
            && clients[j].key_hash_spec() == digest && forall|k: int|
            from <= k < j ==> (#[trigger] clients[k]).key_hash_spec() != digest,
        first_match(clients, digest, from) is None ==> forall|k: int|
            from <= k < clients.len() ==> (#[trigger] clients[k]).key_hash_spec() != digest,
    decreases clients.len() - from,
{
    if from < clients.len() && clients[from].key_hash_spec() != digest {
        lemma_first_match(clients, digest, from + 1);
    }
}

/// Law: a request that presents the key of a registered client is
/// authenticated, as the first registered client with that key's digest.
pub proof fn lemma_registered_key_authenticates(
    registry: AuthRegistry,
    headers: AuthHeaders,
    i: int,
)
    requires
        0 <= i < registry.clients().len(),
        headers.key_spec() is Some,
        registry.clients()[i].key_hash_spec() == sha256(headers.key_spec()->0),
    ensures
        first_match(registry.clients(), sha256(headers.key_spec()->0), 0) matches Some(j) && j
            <= i && registry.clients()[j].key_hash_spec() == registry.clients()[i].key_hash_spec(),
{
    lemma_first_match(registry.clients(), sha256(headers.key_spec()->0), 0);
}

/// Law: the bytes a text header value may hold are exactly the visible
/// ASCII bytes 32 to 126 and the tab; every other byte (control bytes, DEL
/// and bytes of 128 and above) makes the value non-text.
pub proof fn lemma_visible_bytes(b: u8)
    ensures
        (32 <= b <= 126 || b == 9) ==> is_visible_ascii(b),
        (b < 32 && b != 9) || b >= 127 ==> !is_visible_ascii(b),
{
}

/// Law: an `x-api-key` value made only of visible ASCII bytes and tabs is
/// the key presented, byte for byte, whatever the `authorization` header
/// holds.
pub proof fn lemma_text_api_key_presented(key: Seq<u8>, authorization: Option<Seq<u8>>)
    requires
        forall|i: int| 0 <= i < key.len() ==> (32 <= #[trigger] key[i] <= 126 || key[i] == 9),
    ensures
        presented_key(Some(key), authorization) == Some(key),
{
    assert forall|i: int| 0 <= i < key.len() implies is_visible_ascii(#[trigger] key[i]) by {
        lemma_visible_bytes(key[i]);
    }
}

/// Law: an `x-api-key` value holding a byte outside visible ASCII and tab
/// is not the key presented; only `authorization: Bearer <key>` can then
/// present one.
pub proof fn lemma_non_text_api_key_ignored(key: Seq<u8>, i: int, authorization: Option<Seq<u8>>)
    requires
        0 <= i < key.len(),
        (key[i] < 32 && key[i] != 9) || key[i] >= 127,
    ensures
        presented_key(Some(key), authorization) == presented_key(None, authorization),
{
    lemma_visible_bytes(key[i]);
}

/// Law: a configuration whose key was looked up and has at least 24 bytes
/// is accepted, whatever its length above that.
pub proof fn lemma_long_keys_accepted(config: ClientConfig)
    requires
        config.key is Ok,
        encode_utf8(config.key->Ok_0@).len() >= 24,
    ensures
        config_failure(config) is None,
{
}

/// Law: a configuration whose key was looked up and has fewer than 24
/// bytes is refused with an internal error naming the client.
pub proof fn lemma_short_keys_refused(config: ClientConfig)
    requires
        config.key is Ok,
        encode_utf8(config.key->Ok_0@).len() < 24,
    ensures
        config_failure(config) == Some(
            plain_error(ErrorKind::Internal, "client "@ + config.id@ + " key must be at least 24 bytes"@),
        ),
{
}

/// Law: when every key was looked up and has at least 24 bytes, no
/// configuration is refused, so the registry is built.
pub proof fn lemma_all_long_keys_accepted(configs: Seq<ClientConfig>)
    requires
        forall|i: int|
            0 <= i < configs.len() ==> (#[trigger] configs[i]).key is Ok && encode_utf8(
                configs[i].key->Ok_0@,
            ).len() >= 24,
    ensures
        first_failure(configs) is None,
{
    assert forall|j: int| 0 <= j < configs.len() implies config_failure(#[trigger] configs[j]) is None by {
        lemma_long_keys_accepted(configs[j]);
    }
    lemma_no_failure(configs);
}

} // verus!
