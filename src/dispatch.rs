//! Routing decisions of the reverse proxy.
//!
//! Forwarding a request is split in two steps around the one network call:
//! [`prepare_dispatch`] decides, from the registry alone, whether the call is
//! made and what exactly is sent; [`complete_dispatch`] turns what came back
//! into the gateway's answer. The caller performs the call in between, and
//! performs it only when the first step returned `Ok`.
use crate::registry::{lookup, Record, ServiceRegistry};
use vstd::prelude::*;

verus! {

/// How long the outbound call may take before it counts as failed.
pub const DEFAULT_TIMEOUT_MS: u64 = 5000;

/// Status answered when the target is unknown or marked down.
pub const STATUS_SERVICE_UNAVAILABLE: u16 = 503;

/// Status answered when the upstream call itself failed.
pub const STATUS_BAD_GATEWAY: u16 = 502;

/// A request as it reached the gateway, already stripped of the route
/// prefix: `path` is what follows the service name.
#[derive(Clone, Debug)]
pub struct InboundRequest {
    pub method: String,
    pub path: String,
    pub query: Option<String>,
    pub headers: Vec<(String, String)>,
    pub body: Vec<u8>,
}

/// The one call the gateway makes to a backend.
#[derive(Clone, Debug)]
pub struct OutboundRequest {
    pub method: String,
    pub url: String,
    pub headers: Vec<(String, String)>,
    pub body: Vec<u8>,
    pub timeout_ms: u64,
}

/// What a backend answered.
#[derive(Clone, Debug)]
pub struct UpstreamResponse {
    pub status: u16,
    pub headers: Vec<(String, String)>,
    pub body: Vec<u8>,
}

/// Why a request was not forwarded, or was forwarded and failed.
#[derive(Clone, Debug)]
pub enum DispatchError {
    /// No service of that name is registered.
    NotRegistered { service: String },
    /// The service is registered but its last probe failed.
    Unhealthy { service: String },
    /// The transport failed: connection refused, timeout, malformed answer.
    Upstream { cause: String },
}

pub type HeaderView = (Seq<char>, Seq<char>);

pub open spec fn header_view(h: (String, String)) -> HeaderView {
    (h.0@, h.1@)
}

pub open spec fn headers_view(hs: Vec<(String, String)>) -> Seq<HeaderView> {
    hs@.map_values(|h: (String, String)| header_view(h))
}

pub struct InboundView {
    pub method: Seq<char>,
    pub path: Seq<char>,
    pub query: Option<Seq<char>>,
    pub headers: Seq<HeaderView>,
    pub body: Seq<u8>,
}

pub struct OutboundView {
    pub method: Seq<char>,
    pub url: Seq<char>,
    pub headers: Seq<HeaderView>,
    pub body: Seq<u8>,
    pub timeout_ms: u64,
}

pub struct UpstreamView {
    pub status: u16,
    pub headers: Seq<HeaderView>,
    pub body: Seq<u8>,
}

pub enum Failure {
    NotRegistered(Seq<char>),
    Unhealthy(Seq<char>),
    Upstream(Seq<char>),
}

impl View for InboundRequest {
    type V = InboundView;

    open spec fn view(&self) -> InboundView {
        InboundView {
            method: self.method@,
            path: self.path@,
            query: match self.query {
                Some(q) => Some(q@),
                None => None,
            },
            headers: headers_view(self.headers),
            body: self.body@,
        }
    }
}

impl View for OutboundRequest {
    type V = OutboundView;

    open spec fn view(&self) -> OutboundView {
        OutboundView {
            method: self.method@,
            url: self.url@,
            headers: headers_view(self.headers),
            body: self.body@,
            timeout_ms: self.timeout_ms,
        }
    }
}

impl View for UpstreamResponse {
    type V = UpstreamView;

    open spec fn view(&self) -> UpstreamView {
        UpstreamView { status: self.status, headers: headers_view(self.headers), body: self.body@ }
    }
}

impl View for DispatchError {
    type V = Failure;

    open spec fn view(&self) -> Failure {
        match self {
            DispatchError::NotRegistered { service } => Failure::NotRegistered(service@),
            DispatchError::Unhealthy { service } => Failure::Unhealthy(service@),
            DispatchError::Upstream { cause } => Failure::Upstream(cause@),
        }
    }
}

pub open spec fn result_view<T: View>(r: Result<T, DispatchError>) -> Result<T::V, Failure> {
    match r {
        Ok(v) => Ok(v@),
        Err(e) => Err(e@),
    }
}

/// HTTP status that the gateway answers for a failure.
pub open spec fn failure_status(f: Failure) -> u16 {
    match f {
        Failure::NotRegistered(_) => STATUS_SERVICE_UNAVAILABLE,
        Failure::Unhealthy(_) => STATUS_SERVICE_UNAVAILABLE,
        Failure::Upstream(_) => STATUS_BAD_GATEWAY,
    }
}

/// A character with ASCII upper case folded to lower case, as a code point.
pub open spec fn fold_code(c: char) -> u32 {
    if 65 <= c as u32 <= 90 {
        (c as u32 + 32) as u32
    } else {
        c as u32
    }
}

/// Header names compare without regard to ASCII case.
pub open spec fn same_ignoring_case(a: Seq<char>, b: Seq<char>) -> bool {
    &&& a.len() == b.len()
    &&& forall|i: int| 0 <= i < a.len() ==> fold_code(#[trigger] a[i]) == fold_code(b[i])
}

/// Headers that describe one connection and are not passed on by a proxy.
pub open spec fn is_hop_by_hop(name: Seq<char>) -> bool {
    ||| same_ignoring_case(name, "connection"@)
    ||| same_ignoring_case(name, "keep-alive"@)
    ||| same_ignoring_case(name, "proxy-authenticate"@)
    ||| same_ignoring_case(name, "proxy-authorization"@)
    ||| same_ignoring_case(name, "te"@)
    ||| same_ignoring_case(name, "trailer"@)
    ||| same_ignoring_case(name, "trailers"@)
    ||| same_ignoring_case(name, "transfer-encoding"@)
    ||| same_ignoring_case(name, "upgrade"@)
}

/// The headers that are passed on, in the order in which they came.
pub open spec fn forwarded_headers(hs: Seq<HeaderView>) -> Seq<HeaderView>
    decreases hs.len(),
{
    if hs.len() == 0 {
        hs
    } else {
        let kept = forwarded_headers(hs.drop_last());
        if is_hop_by_hop(hs.last().0) {
            kept
        } else {
            kept.push(hs.last())
        }
    }
}

/// Where a request is sent: the base URL, the remaining path, and the query
/// string if there is one.
pub open spec fn target_url(base: Seq<char>, path: Seq<char>, query: Option<Seq<char>>) -> Seq<
    char,
> {
    match query {
        Some(q) => base + path + "?"@ + q,
        None => base + path,
    }
}

/// The call made for `req` to a service registered as `rec`.
pub open spec fn outbound_for(rec: Record, req: InboundView) -> OutboundView {
    OutboundView {
        method: req.method,
        url: target_url(rec.url, req.path, req.query),
        headers: forwarded_headers(req.headers),
        body: req.body,
        timeout_ms: DEFAULT_TIMEOUT_MS,
    }
}

/// The routing decision for `req` addressed to `service`.
pub open spec fn dispatch_plan(
    m: Map<Seq<char>, Record>,
    service: Seq<char>,
    req: InboundView,
) -> Result<OutboundView, Failure> {
    match lookup(m, service) {
        None => Err(Failure::NotRegistered(service)),
        Some(rec) => if rec.healthy {
            Ok(outbound_for(rec, req))
        } else {
            Err(Failure::Unhealthy(service))
        },
    }
}

/// What the gateway answers once the upstream call has returned `outcome`.
pub open spec fn completion(outcome: Result<UpstreamView, Seq<char>>) -> Result<
    UpstreamView,
    Failure,
> {
    match outcome {
        Ok(resp) => Ok(resp),
        Err(cause) => Err(Failure::Upstream(cause)),
    }
}

fn fold_char(c: char) -> (r: u32)
    ensures
        r == fold_code(c),
{
    let code = c as u32;
    if 65 <= code && code <= 90 {
        code + 32
    } else {
        code
    }
}

/// Compares two names without regard to ASCII case.
pub fn eq_ignore_case(a: &str, b: &str) -> (r: bool)
    ensures
        r == same_ignoring_case(a@, b@),
{
    let n = a.unicode_len();
    if n != b.unicode_len() {
        return false;
    }
    let mut i: usize = 0;
    while i < n
        invariant
            n == a@.len(),
            n == b@.len(),
            i <= n,
            forall|j: int| 0 <= j < i ==> fold_code(#[trigger] a@[j]) == fold_code(b@[j]),
        decreases n - i,
    {
        if fold_char(a.get_char(i)) != fold_char(b.get_char(i)) {
            return false;
        }
        i = i + 1;
    }
    true
}

/// Whether a header of this name is dropped when a request is forwarded.
pub fn hop_by_hop(name: &str) -> (r: bool)
    ensures
        r == is_hop_by_hop(name@),
{
    eq_ignore_case(name, "connection") || eq_ignore_case(name, "keep-alive") || eq_ignore_case(
        name,
        "proxy-authenticate",
    ) || eq_ignore_case(name, "proxy-authorization") || eq_ignore_case(name, "te")
        || eq_ignore_case(name, "trailer") || eq_ignore_case(name, "trailers") || eq_ignore_case(
        name,
        "transfer-encoding",
    ) || eq_ignore_case(name, "upgrade")
}

/// The request's headers without the hop-by-hop ones, order kept.
pub fn forward_headers(headers: &Vec<(String, String)>) -> (r: Vec<(String, String)>)
    ensures
        headers_view(r) == forwarded_headers(headers_view(*headers)),
{
    let ghost all = headers_view(*headers);
    let mut out: Vec<(String, String)> = Vec::new();
    let mut i: usize = 0;
    while i < headers.len()
        invariant
            i <= headers.len(),
            all == headers_view(*headers),
            headers_view(out) == forwarded_headers(all.take(i as int)),
        decreases headers.len() - i,
    {
        let name = &headers[i].0;
        let value = &headers[i].1;
        proof {
            assert(all.take(i + 1).drop_last() =~= all.take(i as int));
        }
        if !hop_by_hop(name.as_str()) {
            out.push((name.clone(), value.clone()));
            proof {
                assert(headers_view(out) =~= forwarded_headers(all.take(i as int)).push(all[i as int]));
            }
        }
        i = i + 1;
    }
    assert(all.take(headers.len() as int) =~= all);
    out
}

/// The URL of the call: base URL, remaining path, and `?` with the query
/// when there is one.
pub fn build_target_url(base: &String, path: &String, query: &Option<String>) -> (r: String)
    ensures
        r@ == target_url(
            base@,
            path@,
            match query {
                Some(q) => Some(q@),
                None => None,
            },
        ),
{
    let mut url = base.clone();
    url.append(path.as_str());
    match query {
        Some(q) => {
            url.append("?");
            url.append(q.as_str());
        },
        None => {},
    }
    url
}

/// Decides whether `request`, addressed to `service`, is forwarded, and if
/// so builds the one outbound call: same method and body, the target URL,
/// the headers without the hop-by-hop ones, the default timeout. An unknown
/// service gives `NotRegistered`, one marked down gives `Unhealthy`; in both
/// cases no call is built.
pub fn prepare_dispatch(
    registry: &ServiceRegistry,
    service: &str,
    request: &InboundRequest,
) -> (r: Result<OutboundRequest, DispatchError>)
    ensures
        result_view(r) == dispatch_plan(registry@, service@, request@),
{
    match registry.get_service(service) {
        None => Err(DispatchError::NotRegistered { service: service.to_owned() }),
        Some(info) => {
            if !info.healthy {
                Err(DispatchError::Unhealthy { service: service.to_owned() })
            } else {
                let url = build_target_url(&info.url, &request.path, &request.query);
                let out = OutboundRequest {
                    method: request.method.clone(),
                    url,
                    headers: forward_headers(&request.headers),
                    body: request.body.clone(),
                    timeout_ms: DEFAULT_TIMEOUT_MS,
                };
                assert(out@.body =~= request@.body);
                Ok(out)
            }
        },
    }
}

/// The gateway's answer to an upstream outcome: a response passes through
/// unchanged, a transport failure becomes `Upstream`.
pub fn complete_dispatch(outcome: Result<UpstreamResponse, String>) -> (r: Result<
    UpstreamResponse,
    DispatchError,
>)
    ensures
        result_view(r) == completion(
            match outcome {
                Ok(resp) => Ok(resp@),
                Err(cause) => Err(cause@),
            },
        ),
{
    match outcome {
        Ok(resp) => Ok(resp),
        Err(cause) => Err(DispatchError::Upstream { cause }),
    }
}

/// The path prefix under which services are reached: `/api/<service>/...`.
pub open spec fn route_prefix() -> Seq<char> {
    "/api/"@
}

/// `path` addresses a service: it starts with the prefix and a non-empty
/// name follows.
pub open spec fn is_routable(path: Seq<char>) -> bool {
    let k = route_prefix().len();
    &&& path.len() > k
    &&& path.take(k as int) == route_prefix()
    &&& path[k as int] != '/'
}

/// Splits `/api/<service><rest>` into the service name and the remaining
/// path. The name is everything up to the next `/`; the remaining path is
/// empty or starts with `/`. `None` when the path does not start with the
/// prefix or no name follows it.
pub fn parse_route(path: &str) -> (r: Option<(String, String)>)
    ensures
        r is Some <==> is_routable(path@),
        r matches Some((svc, rest)) ==> {
            &&& path@ == route_prefix() + svc@ + rest@
            &&& svc@.len() > 0
            &&& forall|j: int| 0 <= j < svc@.len() ==> svc@[j] != '/'
            &&& (rest@.len() == 0 || rest@[0] == '/')
        },
{
    let prefix = "/api/";
    proof {
        reveal_strlit("/api/");
    }
    let k = prefix.unicode_len();
    let n = path.unicode_len();
    if n <= k {
        return None;
    }
    let mut j: usize = 0;
    while j < k
        invariant
            prefix@ == route_prefix(),
            k == prefix@.len(),
            k < n,
            n == path@.len(),
            j <= k,
            forall|m: int| 0 <= m < j ==> path@[m] == prefix@[m],
        decreases k - j,
    {
        if path.get_char(j) != prefix.get_char(j) {
            assert(path@.take(k as int)[j as int] != route_prefix()[j as int]);
            assert(path@.take(k as int) != route_prefix());
            return None;
        }
        j = j + 1;
    }
    assert(path@.take(k as int) =~= route_prefix());
    if path.get_char(k) == '/' {
        return None;
    }
    let mut i: usize = k + 1;
    while i < n && path.get_char(i) != '/'
        invariant
            k == route_prefix().len(),
            k < i <= n,
            n == path@.len(),
            forall|m: int| k <= m < i ==> path@[m] != '/',
        decreases n - i,
    {
        i = i + 1;
    }
    let svc = path.substring_char(k, i).to_owned();
    let rest = path.substring_char(i, n).to_owned();
    assert(path@ =~= route_prefix() + svc@ + rest@);
    Some((svc, rest))
}

/// The text answered for a failure.
pub open spec fn failure_text(f: Failure) -> Seq<char> {
    match f {
        Failure::NotRegistered(service) => "Service unavailable: service not registered: "@ + service,
        Failure::Unhealthy(service) => "Service unavailable: service unhealthy: "@ + service,
        Failure::Upstream(cause) => "Proxy error: "@ + cause,
    }
}

impl DispatchError {
    /// The text answered for this failure, naming the service or the cause.
    pub fn message(&self) -> (r: String)
        ensures
            r@ == failure_text(self@),
    {
        let (lead, detail) = match self {
            DispatchError::NotRegistered { service } => (
                "Service unavailable: service not registered: ",
                service,
            ),
            DispatchError::Unhealthy { service } => ("Service unavailable: service unhealthy: ", service),
            DispatchError::Upstream { cause } => ("Proxy error: ", cause),
        };
        let mut text = lead.to_owned();
        text.append(detail.as_str());
        text
    }

    /// The HTTP status answered for this failure: 503 when the service is
    /// unknown or down, 502 when the upstream call failed.
    pub fn status_code(&self) -> (r: u16)
        ensures
            r == failure_status(self@),
    {
        match self {
            DispatchError::NotRegistered { .. } => STATUS_SERVICE_UNAVAILABLE,
            DispatchError::Unhealthy { .. } => STATUS_SERVICE_UNAVAILABLE,
            DispatchError::Upstream { .. } => STATUS_BAD_GATEWAY,
        }
    }
}

/// A request addressed to a name that is not registered always fails with
/// `NotRegistered`, and no outbound call is planned.
pub proof fn lemma_unregistered_not_forwarded(
    m: Map<Seq<char>, Record>,
    service: Seq<char>,
    req: InboundView,
)
    requires
        !m.contains_key(service),
    ensures
        dispatch_plan(m, service, req) == Err::<OutboundView, Failure>(
            Failure::NotRegistered(service),
        ),
        failure_status(Failure::NotRegistered(service)) == STATUS_SERVICE_UNAVAILABLE,
{
}

/// A request addressed to a registered service that is marked down always
/// fails with `Unhealthy`, and no outbound call is planned.
pub proof fn lemma_unhealthy_not_forwarded(
    m: Map<Seq<char>, Record>,
    service: Seq<char>,
    req: InboundView,
)
    requires
        m.contains_key(service),
        !m[service].healthy,
    ensures
        dispatch_plan(m, service, req) == Err::<OutboundView, Failure>(Failure::Unhealthy(service)),
        failure_status(Failure::Unhealthy(service)) == STATUS_SERVICE_UNAVAILABLE,
{
}

/// A request addressed to a registered healthy service is forwarded as
/// exactly one call that keeps its method and its body, to the service's
/// base URL followed by the request's path and query; the upstream answer
/// then comes back unchanged.
pub proof fn lemma_healthy_forwarded_once(
    m: Map<Seq<char>, Record>,
    service: Seq<char>,
    req: InboundView,
    resp: UpstreamView,
)
    requires
        m.contains_key(service),
        m[service].healthy,
    ensures
        dispatch_plan(m, service, req) matches Ok(out) && {
            &&& out.method == req.method
            &&& out.body == req.body
            &&& out.url == target_url(m[service].url, req.path, req.query)
        },
        completion(Ok(resp)) == Ok::<UpstreamView, Failure>(resp),
{
}

} // verus!
