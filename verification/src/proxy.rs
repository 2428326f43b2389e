//! The proxy service: its configuration handle, what it answers a tunnel
//! request once the target was tried, what it answers an HTTP request that
//! could not be forwarded, and which request headers it forwards.

use std::sync::Arc;

use vstd::prelude::*;
use vstd::string::*;

use crate::config::Config;
use crate::request::ConnectRequestError;
use crate::text::chars_of;

verus! {

/// HTTP/HTTPS tunnel proxy service.
pub struct TunnelProxy {
    pub config: Arc<Config>,
}

impl TunnelProxy {
    /// A proxy serving with the given configuration.
    pub fn new(config: Arc<Config>) -> (proxy: Self)
        ensures
            proxy.config == config,
    {
        TunnelProxy { config }
    }
}

/// Why the proxy gave up on a client connection.
#[derive(Debug)]
pub enum ProxyError {
    /// The listening address does not parse as a socket address.
    InvalidAddress(String),
    /// The head of a `CONNECT` request was refused.
    BadConnectRequest(ConnectRequestError),
    /// The target of a `CONNECT` request did not resolve to an address.
    UnresolvedHost(String),
    /// Connecting to the target failed, with the system's message.
    ConnectFailed(String),
    /// Connecting to the target took longer than the configured timeout.
    ConnectTimeout,
    /// Copying between client and target failed, with the system's message.
    TunnelFailed(String),
    /// The tunnel outlived the configured timeout.
    TunnelTimeout,
}

impl ProxyError {
    /// The message the proxy logs for this error.
    pub open spec fn spec_message(&self) -> Seq<char> {
        match self {
            ProxyError::InvalidAddress(a) => "Failed to parse address: "@ + a@,
            ProxyError::BadConnectRequest(ConnectRequestError::Empty) => "Invalid CONNECT request"@,
            ProxyError::BadConnectRequest(ConnectRequestError::Malformed) => "Invalid CONNECT request format"@,
            ProxyError::UnresolvedHost(h) => "Failed to resolve host: "@ + h@,
            ProxyError::ConnectFailed(e) => e@,
            ProxyError::ConnectTimeout => "Connection timeout"@,
            ProxyError::TunnelFailed(e) => "Tunnel error: "@ + e@,
            ProxyError::TunnelTimeout => "Tunnel timed out"@,
        }
    }

    /// The message the proxy logs for this error.
    pub fn message(&self) -> (m: String)
        ensures
            m@ == self.spec_message(),
    {
        match self {
            ProxyError::InvalidAddress(a) => String::from_str("Failed to parse address: ").concat(
                a.as_str(),
            ),
            ProxyError::BadConnectRequest(e) => String::from_str(e.message()),
            ProxyError::UnresolvedHost(h) => String::from_str("Failed to resolve host: ").concat(
                h.as_str(),
            ),
            ProxyError::ConnectFailed(e) => e.clone(),
            ProxyError::ConnectTimeout => String::from_str("Connection timeout"),
            ProxyError::TunnelFailed(e) => String::from_str("Tunnel error: ").concat(e.as_str()),
            ProxyError::TunnelTimeout => String::from_str("Tunnel timed out"),
        }
    }
}

/// How the attempt to reach the target of a `CONNECT` request ended.
pub enum ConnectAttempt {
    /// The target accepted the connection.
    Connected,
    /// Connecting failed, with the system's message.
    Failed(String),
    /// No connection within the configured timeout.
    TimedOut,
}

/// What the proxy does after trying the target of a `CONNECT` request: the
/// status line it writes to the client, and then either opening the tunnel
/// (`Ok`) or closing the connection with an error.
pub struct ConnectDecision {
    pub reply: &'static str,
    pub next: Result<(), ProxyError>,
}

/// `HTTP/1.1 200 Connection Established\r\n\r\n`.
pub open spec fn established_reply() -> Seq<char> {
    "HTTP/1.1 200 Connection Established\r\n\r\n"@
}

/// `HTTP/1.1 502 Bad Gateway\r\n\r\n`.
pub open spec fn bad_gateway_reply() -> Seq<char> {
    "HTTP/1.1 502 Bad Gateway\r\n\r\n"@
}

/// `HTTP/1.1 504 Gateway Timeout\r\n\r\n`.
pub open spec fn gateway_timeout_reply() -> Seq<char> {
    "HTTP/1.1 504 Gateway Timeout\r\n\r\n"@
}

/// The answer to a tunnel request once its target was tried: `200` and the
/// tunnel when the target accepted, `502` when connecting failed, `504`
/// when it timed out; the last two end the connection with the matching
/// error.
pub fn answer_connect(attempt: ConnectAttempt) -> (d: ConnectDecision)
    ensures
        match attempt {
            ConnectAttempt::Connected => d.reply@ == established_reply() && d.next is Ok,
            ConnectAttempt::Failed(e) => d.reply@ == bad_gateway_reply() && (d.next matches Err(
                ProxyError::ConnectFailed(m),
            ) && m@ == e@),
            ConnectAttempt::TimedOut => d.reply@ == gateway_timeout_reply() && (d.next matches Err(
                ProxyError::ConnectTimeout,
            )),
        },
{
    match attempt {
        ConnectAttempt::Connected => ConnectDecision {
            reply: "HTTP/1.1 200 Connection Established\r\n\r\n",
            next: Ok(()),
        },
        ConnectAttempt::Failed(e) => ConnectDecision {
            reply: "HTTP/1.1 502 Bad Gateway\r\n\r\n",
            next: Err(ProxyError::ConnectFailed(e)),
        },
        ConnectAttempt::TimedOut => ConnectDecision {
            reply: "HTTP/1.1 504 Gateway Timeout\r\n\r\n",
            next: Err(ProxyError::ConnectTimeout),
        },
    }
}

/// Where forwarding a plain HTTP request went wrong.
pub enum HttpFailure {
    /// The client's request body could not be read.
    RequestBody,
    /// The target's response body could not be read.
    ResponseBody,
    /// The request to the target failed, with the client library's message.
    Upstream(String),
    /// The target did not answer within the configured timeout.
    TimedOut,
}

/// A reply the proxy makes up itself: a status code and a text body.
pub struct HttpReply {
    pub status: u16,
    pub body: String,
}

/// The status and body the proxy answers a failed forward with.
pub open spec fn failure_reply_spec(f: HttpFailure) -> (u16, Seq<char>) {
    match f {
        HttpFailure::RequestBody => (400, "Failed to read request body"@),
        HttpFailure::ResponseBody => (500, "Failed to read response body"@),
        HttpFailure::Upstream(e) => (502, "Error: "@ + e@),
        HttpFailure::TimedOut => (504, "Request timed out"@),
    }
}

/// The reply to a plain HTTP request that could not be forwarded: `400` when
/// the request body is unreadable, `500` when the response body is, `502`
/// with the error when the target could not be reached, `504` on timeout.
pub fn failure_reply(f: HttpFailure) -> (r: HttpReply)
    ensures
        (r.status, r.body@) == failure_reply_spec(f),
{
    match f {
        HttpFailure::RequestBody => HttpReply {
            status: 400,
            body: String::from_str("Failed to read request body"),
        },
        HttpFailure::ResponseBody => HttpReply {
            status: 500,
            body: String::from_str("Failed to read response body"),
        },
        HttpFailure::Upstream(e) => HttpReply {
            status: 502,
            body: String::from_str("Error: ").concat(e.as_str()),
        },
        HttpFailure::TimedOut => HttpReply {
            status: 504,
            body: String::from_str("Request timed out"),
        },
    }
}

/// A failed request to the target is answered `502 Bad Gateway` whatever the
/// client library's message says, and the body carries that message whole
/// after `Error: `; the other failures have their own fixed statuses.
pub proof fn lemma_upstream_failure_is_bad_gateway(e1: String, e2: String)
    ensures
        failure_reply_spec(HttpFailure::Upstream(e1)).0 == 502,
        failure_reply_spec(HttpFailure::Upstream(e1)).0 == failure_reply_spec(
            HttpFailure::Upstream(e2),
        ).0,
        failure_reply_spec(HttpFailure::Upstream(e1)).1.len() == e1@.len() + 7,
        failure_reply_spec(HttpFailure::Upstream(e1)).1.take(7) == "Error: "@,
        failure_reply_spec(HttpFailure::Upstream(e1)).1.skip(7) == e1@,
        failure_reply_spec(HttpFailure::RequestBody).0 == 400,
        failure_reply_spec(HttpFailure::ResponseBody).0 == 500,
        failure_reply_spec(HttpFailure::TimedOut).0 == 504,
{
    reveal_strlit("Error: ");
    let b = failure_reply_spec(HttpFailure::Upstream(e1)).1;
    assert(b.take(7) =~= "Error: "@);
    assert(b.skip(7) =~= e1@);
}

/// `c` with ASCII capitals made small, as `to_lowercase` does for them.
pub open spec fn ascii_lower(c: char) -> char {
    if 'A' <= c && c <= 'Z' {
        ((c as u32) + 32) as char
    } else {
        c
    }
}

/// `proxy-`.
pub open spec fn proxy_prefix() -> Seq<char> {
    seq!['p', 'r', 'o', 'x', 'y', '-']
}

/// A hop-by-hop proxy header (`Proxy-Authorization`, `Proxy-Connection`,
/// ...): its name, in lower case, starts with `proxy-`. Header names are
/// ASCII, and no other character lowers to one of `proxy-`.
pub open spec fn is_proxy_header(name: Seq<char>) -> bool {
    name.len() >= 6 && forall|k: int| 0 <= k < 6 ==> ascii_lower(#[trigger] name[k]) == proxy_prefix()[k]
}

/// Whether a header is a proxy header is decided by its first six
/// characters alone, and only by `proxy-` in any mix of cases: names of
/// fewer than six characters and names not starting with `p` or `P` are
/// never proxy headers, whatever their length; `proxy-` and `Proxy-` followed
/// by anything are; and adding characters after the sixth changes nothing.
pub proof fn lemma_proxy_header_by_prefix(name: Seq<char>, more: Seq<char>)
    ensures
        name.len() < 6 ==> !is_proxy_header(name),
        name.len() > 0 && name[0] != 'p' && name[0] != 'P' ==> !is_proxy_header(name),
        name.len() >= 6 ==> is_proxy_header(name + more) == is_proxy_header(name),
        name.len() >= 6 ==> is_proxy_header(name) == is_proxy_header(name.take(6)),
        is_proxy_header(proxy_prefix() + more),
        is_proxy_header(seq!['P', 'r', 'o', 'x', 'y', '-'] + more),
{
    if name.len() > 0 && name[0] != 'p' && name[0] != 'P' {
        if is_proxy_header(name) {
            assert(ascii_lower(name[0]) == proxy_prefix()[0]);
        }
    }
    if name.len() >= 6 {
        assert forall|k: int| 0 <= k < 6 implies (name + more)[k] == name[k] && name.take(6)[k]
            == name[k] by {}
        if is_proxy_header(name) {
            assert forall|k: int| 0 <= k < 6 implies ascii_lower(#[trigger] (name + more)[k])
                == proxy_prefix()[k] by {
                assert((name + more)[k] == name[k]);
            }
            assert forall|k: int| 0 <= k < 6 implies ascii_lower(#[trigger] name.take(6)[k])
                == proxy_prefix()[k] by {
                assert(name.take(6)[k] == name[k]);
            }
        }
        if is_proxy_header(name + more) {
            assert forall|k: int| 0 <= k < 6 implies ascii_lower(#[trigger] name[k])
                == proxy_prefix()[k] by {
                assert((name + more)[k] == name[k]);
            }
        }
        if is_proxy_header(name.take(6)) {
            assert forall|k: int| 0 <= k < 6 implies ascii_lower(#[trigger] name[k])
                == proxy_prefix()[k] by {
                assert(name.take(6)[k] == name[k]);
            }
        }
    }
    let a = proxy_prefix() + more;
    assert forall|k: int| 0 <= k < 6 implies ascii_lower(#[trigger] a[k]) == proxy_prefix()[k] by {
        assert(a[k] == proxy_prefix()[k]);
    }
    let b = seq!['P', 'r', 'o', 'x', 'y', '-'] + more;
    assert forall|k: int| 0 <= k < 6 implies ascii_lower(#[trigger] b[k]) == proxy_prefix()[k] by {
        assert(b[k] == seq!['P', 'r', 'o', 'x', 'y', '-'][k]);
        if k == 0 {
            assert(('P' as u32) + 32 == ('p' as u32));
        }
    }
}

/// A proxy header is exactly a name whose first six characters spell
/// `proxy-`, each letter small or capital.
pub proof fn lemma_proxy_header_any_case(name: Seq<char>)
    ensures
        is_proxy_header(name) <==> (name.len() >= 6 && forall|k: int|
            0 <= k < 6 ==> (#[trigger] name[k] == seq!['p', 'r', 'o', 'x', 'y', '-'][k]
                || name[k] == seq!['P', 'R', 'O', 'X', 'Y', '-'][k])),
{
    let small = seq!['p', 'r', 'o', 'x', 'y', '-'];
    let big = seq!['P', 'R', 'O', 'X', 'Y', '-'];
    assert(small =~= proxy_prefix());
    assert forall|k: int| 0 <= k < 6 && k < name.len() implies (ascii_lower(#[trigger] name[k])
        == small[k] <==> (name[k] == small[k] || name[k] == big[k])) by {
        let c = name[k];
        let u = c as u32;
        if 'A' <= c && c <= 'Z' {
            assert(ascii_lower(c) == (u + 32) as char);
            assert(65 <= u <= 90);
        }
        if k == 0 {
            assert(('P' as u32) == 80 && ('p' as u32) == 112);
        } else if k == 1 {
            assert(('R' as u32) == 82 && ('r' as u32) == 114);
        } else if k == 2 {
            assert(('O' as u32) == 79 && ('o' as u32) == 111);
        } else if k == 3 {
            assert(('X' as u32) == 88 && ('x' as u32) == 120);
        } else if k == 4 {
            assert(('Y' as u32) == 89 && ('y' as u32) == 121);
        } else {
            assert(('-' as u32) == 45);
        }
    }
}

/// Whether a request header with this name is forwarded to the target.
pub fn forwards_header(name: &str) -> (b: bool)
    ensures
        b == !is_proxy_header(name@),
{
    let cs = chars_of(name);
    if cs.len() < 6 {
        return true;
    }
    let prefix = ['p', 'r', 'o', 'x', 'y', '-'];
    assert(prefix@ =~= proxy_prefix());
    let mut i: usize = 0;
    while i < 6
        invariant
            cs@ == name@,
            cs@.len() >= 6,
            prefix@ == proxy_prefix(),
            i <= 6,
            forall|k: int| 0 <= k < i ==> ascii_lower(#[trigger] cs@[k]) == proxy_prefix()[k],
        decreases 6 - i,
    {
        let c = cs[i];
        let lower = if 'A' <= c && c <= 'Z' {
            ((c as u32) + 32) as u8 as char
        } else {
            c
        };
        assert(lower == ascii_lower(c)) by {
            if 'A' <= c && c <= 'Z' {
                assert(((c as u32) + 32) as u8 as char == ((c as u32) + 32) as char);
            }
        }
        if lower != prefix[i] {
            assert(ascii_lower(name@[i as int]) != proxy_prefix()[i as int]);
            return true;
        }
        i = i + 1;
    }
    false
}

/// The headers of `headers` that are passed on: all but the proxy headers,
/// in their order.
pub open spec fn forwarded<V>(headers: Seq<(String, V)>) -> Seq<(String, V)> {
    headers.filter(|h: (String, V)| !is_proxy_header(h.0@))
}

/// The request headers the proxy passes on, in their order: all but the
/// proxy headers. Each header is its name and whatever the caller carries
/// with it.
pub fn forwarded_headers<V>(headers: Vec<(String, V)>) -> (kept: Vec<(String, V)>)
    ensures
        kept@ == forwarded(headers@),
{
    let ghost keep = |h: (String, V)| !is_proxy_header(h.0@);
    let ghost all = headers@;
    let mut kept: Vec<(String, V)> = Vec::new();
    assert(all.take(0).filter(keep) =~= Seq::<(String, V)>::empty());
    for h in it: headers
        invariant
            it.seq() == all,
            kept@ == all.take(it.index() as int).filter(keep),
            keep == (|h: (String, V)| !is_proxy_header(h.0@)),
    {
        let ghost done = it.index() as int;
        assert(h == all[done]);
        assert(all.take(done + 1).drop_last() =~= all.take(done));
        proof {
            reveal_with_fuel(Seq::filter, 1);
        }
        if forwards_header(h.0.as_str()) {
            kept.push(h);
        }
    }
    assert(all.take(all.len() as int) =~= all);
    kept
}

/// The response headers as name and value pairs, every value kept: an
/// entry without a name (a further value of the header before it, as
/// `HeaderMap::into_iter` yields them) takes the name last seen; values
/// before any name are dropped.
pub open spec fn named_values<V>(entries: Seq<(Option<String>, V)>, current: Option<String>) -> Seq<
    (String, V),
>
    decreases entries.len(),
{
    if entries.len() == 0 {
        seq![]
    } else {
        let name = match entries[0].0 {
            Some(n) => Some(n),
            None => current,
        };
        match name {
            Some(n) => seq![(n, entries[0].1)] + named_values(entries.drop_first(), Some(n)),
            None => named_values(entries.drop_first(), None),
        }
    }
}

/// The response headers the proxy passes back to the client, every value of
/// every header, in order: each value paired with its header's name.
pub fn name_response_headers<V>(entries: Vec<(Option<String>, V)>) -> (named: Vec<(String, V)>)
    ensures
        named@ == named_values(entries@, None),
{
    let ghost all = entries@;
    let mut named: Vec<(String, V)> = Vec::new();
    let mut current: Option<String> = None;
    assert(all.skip(0) =~= all);
    assert(named@ + named_values(all.skip(0), current) =~= named_values(all, None));
    for entry in it: entries
        invariant
            it.seq() == all,
            named@ + named_values(all.skip(it.index() as int), current) == named_values(all, None),
    {
        let ghost i = it.index() as int;
        let ghost before = named@;
        let ghost cur = current;
        assert(entry == all[i]);
        assert(all.skip(i).drop_first() =~= all.skip(i + 1));
        assert(all.skip(i)[0] == all[i]);
        let (name, value) = entry;
        match name {
            Some(n) => {
                current = Some(n.clone());
                named.push((n, value));
                assert(before + (seq![(n, value)] + named_values(all.skip(i + 1), current))
                    =~= named@ + named_values(all.skip(i + 1), current));
            },
            None => {
                match &current {
                    Some(c) => {
                        let c2 = c.clone();
                        named.push((c2, value));
                        assert(before + (seq![(c2, value)] + named_values(all.skip(i + 1), cur))
                            =~= named@ + named_values(all.skip(i + 1), current));
                    },
                    None => {},
                }
            },
        }
    }
    assert(all.skip(all.len() as int) =~= Seq::<(Option<String>, V)>::empty());
    assert(named@ + Seq::<(String, V)>::empty() =~= named@);
    named
}

/// Once a name is in effect, every value is passed back, in order, under
/// the name it belongs to: with `current` or the first entry naming a
/// header, no value is lost and none is changed.
pub proof fn lemma_every_response_value_kept<V>(
    entries: Seq<(Option<String>, V)>,
    current: Option<String>,
)
    requires
        current is Some || entries.len() == 0 || entries[0].0 is Some,
    ensures
        named_values(entries, current).len() == entries.len(),
        forall|k: int|
            0 <= k < entries.len() ==> #[trigger] named_values(entries, current)[k].1
                == entries[k].1,
        forall|k: int|
            0 <= k < entries.len() && entries[k].0 is Some ==> Some(
                #[trigger] named_values(entries, current)[k].0,
            ) == entries[k].0,
    decreases entries.len(),
{
    if entries.len() > 0 {
        let name = match entries[0].0 {
            Some(n) => Some(n),
            None => current,
        };
        let rest = entries.drop_first();
        lemma_every_response_value_kept(rest, name);
        let out = named_values(entries, current);
        assert(out == seq![(name.unwrap(), entries[0].1)] + named_values(rest, name));
        assert forall|k: int| 0 <= k < entries.len() implies #[trigger] out[k].1 == entries[k].1 by {
            if k > 0 {
                assert(out[k] == named_values(rest, name)[k - 1]);
                assert(rest[k - 1] == entries[k]);
            }
        }
        assert forall|k: int| 0 <= k < entries.len() && entries[k].0 is Some implies Some(
            #[trigger] out[k].0,
        ) == entries[k].0 by {
            if k > 0 {
                assert(out[k] == named_values(rest, name)[k - 1]);
                assert(rest[k - 1] == entries[k]);
            }
        }
    }
}

/// Every value is passed back under the name of its own header: the name
/// of the nearest named entry at or before it. With a first entry that
/// names its header (as `HeaderMap::into_iter` always yields), nothing is
/// dropped, each value keeps its place, and the name it is sent under is
/// that of an entry `j` at or before it with no other name in between.
pub proof fn lemma_values_named_by_nearest_header<V>(entries: Seq<(Option<String>, V)>)
    requires
        entries.len() == 0 || entries[0].0 is Some,
    ensures
        named_values(entries, None).len() == entries.len(),
        forall|k: int|
            0 <= k < entries.len() ==> #[trigger] named_values(entries, None)[k].1 == entries[k].1,
        forall|k: int|
            0 <= k < entries.len() ==> exists|j: int|
                0 <= j <= k && entries[j].0 == Some(#[trigger] named_values(entries, None)[k].0)
                    && forall|i: int| j < i <= k ==> (#[trigger] entries[i].0) is None,
{
    lemma_every_response_value_kept(entries, None);
    lemma_names_from_nearest(entries, None);
    assert forall|k: int| 0 <= k < entries.len() implies exists|j: int|
        0 <= j <= k && entries[j].0 == Some(#[trigger] named_values(entries, None)[k].0) && forall|
            i: int,
        | j < i <= k ==> (#[trigger] entries[i].0) is None by {
        if !nearest_named(entries, k, named_values(entries, None)[k].0) {
            assert(entries[0].0 is None);
        }
    }
}

/// Values that come before any header name are dropped: passing back
/// entries whose first `f` have no name gives what the rest alone gives.
pub proof fn lemma_unnamed_lead_dropped<V>(entries: Seq<(Option<String>, V)>, f: int)
    requires
        0 <= f <= entries.len(),
        forall|i: int| 0 <= i < f ==> (#[trigger] entries[i].0) is None,
    ensures
        named_values(entries, None) == named_values(entries.skip(f), None),
    decreases f,
{
    if f == 0 {
        assert(entries.skip(0) =~= entries);
    } else {
        let rest = entries.drop_first();
        assert forall|i: int| 0 <= i < f - 1 implies (#[trigger] rest[i].0) is None by {
            assert(rest[i] == entries[i + 1]);
        }
        lemma_unnamed_lead_dropped(rest, f - 1);
        assert(rest.skip(f - 1) =~= entries.skip(f));
        assert(entries[0].0 is None);
    }
}

/// An entry `j` at or before `k` names `name`, and no entry after it up to
/// `k` names anything.
pub open spec fn nearest_named<V>(entries: Seq<(Option<String>, V)>, k: int, name: String) -> bool {
    exists|j: int|
        0 <= j <= k && entries[j].0 == Some(name) && forall|i: int|
            j < i <= k ==> (#[trigger] entries[i].0) is None
}

/// Each value of `named_values(entries, current)` carries the nearest name
/// at or before it, or `current` when no entry up to it is named.
proof fn lemma_names_from_nearest<V>(entries: Seq<(Option<String>, V)>, current: Option<String>)
    requires
        current is Some || entries.len() == 0 || entries[0].0 is Some,
    ensures
        forall|k: int|
            0 <= k < entries.len() ==> nearest_named(
                entries,
                k,
                #[trigger] named_values(entries, current)[k].0,
            ) || (current == Some(named_values(entries, current)[k].0) && forall|i: int|
                0 <= i <= k ==> (#[trigger] entries[i].0) is None),
    decreases entries.len(),
{
    if entries.len() > 0 {
        let name = match entries[0].0 {
            Some(n) => Some(n),
            None => current,
        };
        let rest = entries.drop_first();
        lemma_every_response_value_kept(rest, name);
        lemma_names_from_nearest(rest, name);
        let out = named_values(entries, current);
        assert(out == seq![(name.unwrap(), entries[0].1)] + named_values(rest, name));
        assert forall|k: int| 0 <= k < entries.len() implies nearest_named(
            entries,
            k,
            #[trigger] out[k].0,
        ) || (current == Some(out[k].0) && forall|i: int|
            0 <= i <= k ==> (#[trigger] entries[i].0) is None) by {
            if k == 0 {
                if entries[0].0 is Some {
                    assert(entries[0].0 == Some(out[0].0));
                    assert(nearest_named(entries, 0, out[0].0));
                }
            } else {
                let r = named_values(rest, name);
                assert(out[k] == r[k - 1]);
                if nearest_named(rest, k - 1, r[k - 1].0) {
                    let j = choose|j: int|
                        0 <= j <= k - 1 && rest[j].0 == Some(r[k - 1].0) && forall|i: int|
                            j < i <= k - 1 ==> (#[trigger] rest[i].0) is None;
                    assert(entries[j + 1] == rest[j]);
                    assert forall|i: int| j + 1 < i <= k implies (#[trigger] entries[i].0) is None by {
                        assert(entries[i] == rest[i - 1]);
                    }
                    assert(nearest_named(entries, k, out[k].0));
                } else {
                    assert(name == Some(r[k - 1].0));
                    assert forall|i: int| 1 <= i <= k implies (#[trigger] entries[i].0) is None by {
                        assert(entries[i] == rest[i - 1]);
                        assert(rest[i - 1].0 is None);
                    }
                    if entries[0].0 is Some {
                        assert forall|i: int| 0 < i <= k implies (#[trigger] entries[i].0) is None by {}
                        assert(nearest_named(entries, k, out[k].0));
                    }
                }
            }
        }
    }
}

/// Filtering a sequence whose elements all pass keeps it whole.
proof fn lemma_filter_keeps_all<A>(s: Seq<A>, pred: spec_fn(A) -> bool)
    requires
        forall|k: int| 0 <= k < s.len() ==> pred(#[trigger] s[k]),
    ensures
        s.filter(pred) == s,
    decreases s.len(),
{
    reveal(Seq::filter);
    if s.len() > 0 {
        lemma_filter_keeps_all(s.drop_last(), pred);
        assert(s.drop_last().push(s.last()) =~= s);
    }
}

/// The proxy forwards every header but the proxy headers: no proxy header
/// is passed on, every other header is, and the headers passed on would be
/// passed on again unchanged.
pub proof fn lemma_forwarding_drops_only_proxy_headers<V>(headers: Seq<(String, V)>)
    ensures
        forall|k: int|
            0 <= k < forwarded(headers).len() ==> !is_proxy_header(
                #[trigger] forwarded(headers)[k].0@,
            ),
        forall|k: int|
            0 <= k < headers.len() && !is_proxy_header(headers[k].0@) ==> forwarded(
                headers,
            ).contains(#[trigger] headers[k]),
        forwarded(forwarded(headers)) == forwarded(headers),
{
    broadcast use vstd::seq_lib::group_filter_ensures;

    let pred = |h: (String, V)| !is_proxy_header(h.0@);
    assert forall|k: int| 0 <= k < forwarded(headers).len() implies !is_proxy_header(
        #[trigger] forwarded(headers)[k].0@,
    ) by {
        headers.lemma_filter_pred(pred, k);
    }
    assert forall|k: int| 0 <= k < headers.len() && !is_proxy_header(headers[k].0@) implies forwarded(
        headers,
    ).contains(#[trigger] headers[k]) by {
        headers.lemma_filter_contains(pred, k);
    }
    lemma_filter_keeps_all(forwarded(headers), pred);
}

} // verus!
