//! The network capture: how the Network domain's events build the request waterfall,
//! including redirect hops, and which requests a filter keeps.

use vstd::prelude::*;
use vstd::string::StringExecFns;
use crate::console::{
    get_int, get_member, get_text, member_int, member_of, member_text, owned, string_or, text_or,
};
use crate::json::{lemma_elements_view, lemma_members_view, pretty_json, pretty_text, Json, JsonNumber, JsonV};
use crate::text::{
    chars_contain, chars_of, contains_seq, decimal, push_char, push_decimal, signed_decimal,
    signed_decimal_string, str_eq, string_of,
};

verus! {

/// What to capture.
pub struct NetworkParams {
    pub navigate: Option<String>,
    pub duration_secs: u64,
    /// Keep only requests whose URL contains this text.
    pub filter: Option<String>,
}

/// A protocol timestamp in seconds: the number it was given as, or none when the event
/// carried no number (which stands for 0).
pub struct Stamp {
    pub seconds: Option<JsonNumber>,
}

/// One request hop of the waterfall.
pub struct Request {
    pub method: String,
    pub url: String,
    pub status: Option<i64>,
    pub resource_type: Option<String>,
    /// The encoded length in bytes, when a number was reported (none stands for 0).
    pub encoded_len: Option<JsonNumber>,
    pub start: Stamp,
    pub end: Option<Stamp>,
    pub failed: Option<String>,
}

/// A request hop with its texts as characters.
pub struct RequestView {
    pub method: Seq<char>,
    pub url: Seq<char>,
    pub status: Option<i64>,
    pub resource_type: Option<Seq<char>>,
    pub encoded_len: Option<JsonNumber>,
    pub start: Option<JsonNumber>,
    pub end: Option<Option<JsonNumber>>,
    pub failed: Option<Seq<char>>,
}

/// The characters of an optional string.
pub open spec fn opt_chars(s: Option<String>) -> Option<Seq<char>> {
    match s {
        Some(t) => Some(t@),
        None => None,
    }
}

impl View for Request {
    type V = RequestView;

    open spec fn view(&self) -> RequestView {
        RequestView {
            method: self.method@,
            url: self.url@,
            status: self.status,
            resource_type: opt_chars(self.resource_type),
            encoded_len: self.encoded_len,
            start: self.start.seconds,
            end: match self.end {
                Some(s) => Some(s.seconds),
                None => None,
            },
            failed: opt_chars(self.failed),
        }
    }
}

/// The views of a sequence of requests.
pub open spec fn request_views(rs: Seq<Request>) -> Seq<RequestView> {
    Seq::new(rs.len(), |i: int| rs[i]@)
}

/// The number that an optional value is, if it is one.
pub open spec fn number_of(j: Option<Json>) -> Option<JsonNumber> {
    match j {
        Some(Json::Number(n)) => Some(n),
        _ => None,
    }
}

/// A copy of a number.
pub fn copy_number(n: &JsonNumber) -> (c: JsonNumber)
    ensures
        c == *n,
{
    JsonNumber { as_i64: n.as_i64, as_u64: n.as_u64, text: n.text.clone() }
}

/// The number that an optional value is, if it is one.
pub fn get_number(j: Option<&Json>) -> (r: Option<JsonNumber>)
    ensures
        r == number_of(owned(j)),
{
    match j {
        Some(Json::Number(n)) => Some(copy_number(n)),
        _ => None,
    }
}

/// The request index recorded last for `key` among `pairs`.
pub open spec fn lookup(pairs: Seq<(String, usize)>, key: Seq<char>) -> Option<usize>
    decreases pairs.len(),
{
    if pairs.len() == 0 {
        None
    } else if pairs.last().0@ == key {
        Some(pairs.last().1)
    } else {
        lookup(pairs.drop_last(), key)
    }
}

/// The map from protocol request ids to the index of their latest hop.
pub open spec fn key_map(pairs: Seq<(String, usize)>) -> Map<Seq<char>, int> {
    Map::new(|k: Seq<char>| lookup(pairs, k) is Some, |k: Seq<char>| lookup(pairs, k)->0 as int)
}

/// The capture so far: the hops in arrival order, and for each request id its latest hop.
pub struct CaptureView {
    pub requests: Seq<RequestView>,
    pub current: Map<Seq<char>, int>,
}

/// The state of a network capture.
pub struct Capture {
    /// The hops in arrival order.
    requests: Vec<Request>,
    /// Request ids with the index of a hop, in the order they were recorded; the pair
    /// recorded last for an id holds its latest hop (see `key_map`), so the list reads as
    /// a map from id to latest hop, with its contract stated over `Map`.
    current: Vec<(String, usize)>,
}

impl View for Capture {
    type V = CaptureView;

    closed spec fn view(&self) -> CaptureView {
        CaptureView { requests: request_views(self.requests@), current: key_map(self.current@) }
    }
}

/// Every request id refers to a hop that exists.
pub open spec fn capture_wf(c: CaptureView) -> bool {
    forall|k: Seq<char>| #[trigger] c.current.contains_key(k) ==> 0 <= c.current[k] < c.requests.len()
}

/// The hop `i` with a new status and end.
pub open spec fn redirected(r: RequestView, status: Option<i64>, end: Option<JsonNumber>) -> RequestView {
    RequestView { status, end: Some(end), ..r }
}

/// How one protocol message changes the capture. Messages of other sessions, without
/// parameters, or of other methods change nothing. A new request (with a non-empty id)
/// adds a hop; when it is a redirect of a known id, the previous hop of that id first
/// gets the redirect's status and ends at the new hop's time. A response sets the status
/// (and the type, when given) of the id's latest hop; a finished or failed load sets its
/// end, and its encoded length (when a number is given) or its error text.
pub open spec fn capture_step(c: CaptureView, msg: Json, session: Seq<char>) -> CaptureView {
    let method = text_or(member_text(Some(msg), "method"@), ""@);
    if member_text(Some(msg), "sessionId"@) != Some(session) {
        c
    } else {
        match msg.field("params"@) {
            None => c,
            Some(p) => {
                let id = text_or(member_text(Some(p), "requestId"@), ""@);
                if method == "Network.requestWillBeSent"@ {
                    if id.len() == 0 {
                        c
                    } else {
                        let ts = number_of(member_of(Some(p), "timestamp"@));
                        let hops = match p.field("redirectResponse"@) {
                            Some(rd) => if c.current.contains_key(id) {
                                let i = c.current[id];
                                c.requests.update(i, redirected(c.requests[i], member_int(Some(rd), "status"@), ts))
                            } else {
                                c.requests
                            },
                            None => c.requests,
                        };
                        let request = member_of(Some(p), "request"@);
                        let hop = RequestView {
                            method: text_or(member_text(request, "method"@), ""@),
                            url: text_or(member_text(request, "url"@), ""@),
                            status: None,
                            resource_type: member_text(Some(p), "type"@),
                            encoded_len: None,
                            start: ts,
                            end: None,
                            failed: None,
                        };
                        CaptureView { requests: hops.push(hop), current: c.current.insert(id, hops.len() as int) }
                    }
                } else if c.current.contains_key(id) {
                    let i = c.current[id];
                    let r = c.requests[i];
                    if method == "Network.responseReceived"@ {
                        let hop = RequestView {
                            status: member_int(member_of(Some(p), "response"@), "status"@),
                            resource_type: match member_text(Some(p), "type"@) {
                                Some(t) => Some(t),
                                None => r.resource_type,
                            },
                            ..r
                        };
                        CaptureView { requests: c.requests.update(i, hop), ..c }
                    } else if method == "Network.loadingFinished"@ {
                        let hop = RequestView {
                            end: Some(number_of(member_of(Some(p), "timestamp"@))),
                            encoded_len: match number_of(member_of(Some(p), "encodedDataLength"@)) {
                                Some(n) => Some(n),
                                None => r.encoded_len,
                            },
                            ..r
                        };
                        CaptureView { requests: c.requests.update(i, hop), ..c }
                    } else if method == "Network.loadingFailed"@ {
                        let hop = RequestView {
                            end: Some(number_of(member_of(Some(p), "timestamp"@))),
                            failed: Some(text_or(member_text(Some(p), "errorText"@), "failed"@)),
                            ..r
                        };
                        CaptureView { requests: c.requests.update(i, hop), ..c }
                    } else {
                        c
                    }
                } else {
                    c
                }
            },
        }
    }
}

/// A recorded index is one of the recorded pairs.
proof fn lemma_lookup_some(pairs: Seq<(String, usize)>, key: Seq<char>)
    ensures
        lookup(pairs, key) matches Some(v) ==> exists|j: int| 0 <= j < pairs.len() && #[trigger] pairs[j].1 == v,
    decreases pairs.len(),
{
    if pairs.len() > 0 && pairs.last().0@ != key {
        lemma_lookup_some(pairs.drop_last(), key);
        if let Some(v) = lookup(pairs, key) {
            let j = choose|j: int| 0 <= j < pairs.drop_last().len() && #[trigger] pairs.drop_last()[j].1 == v;
            assert(pairs[j].1 == v);
        }
    }
    if pairs.len() > 0 && pairs.last().0@ == key {
        assert(pairs[pairs.len() - 1].1 == pairs.last().1);
    }
}

/// A copy of an optional string.
fn copy_opt_string(s: &Option<String>) -> (c: Option<String>)
    ensures
        c == *s,
{
    match s {
        Some(t) => Some(t.clone()),
        None => None,
    }
}

/// A copy of an optional number.
fn copy_opt_number(n: &Option<JsonNumber>) -> (c: Option<JsonNumber>)
    ensures
        c == *n,
{
    match n {
        Some(x) => Some(copy_number(x)),
        None => None,
    }
}

/// A copy of a request hop.
fn copy_request(r: &Request) -> (c: Request)
    ensures
        c@ == r@,
{
    Request {
        method: r.method.clone(),
        url: r.url.clone(),
        status: r.status,
        resource_type: copy_opt_string(&r.resource_type),
        encoded_len: copy_opt_number(&r.encoded_len),
        start: Stamp { seconds: copy_opt_number(&r.start.seconds) },
        end: match &r.end {
            Some(e) => Some(Stamp { seconds: copy_opt_number(&e.seconds) }),
            None => None,
        },
        failed: copy_opt_string(&r.failed),
    }
}

/// Recording a pair makes its key map to its index.
proof fn lemma_key_map_push(pairs: Seq<(String, usize)>, key: String, v: usize)
    ensures
        key_map(pairs.push((key, v))) == key_map(pairs).insert(key@, v as int),
{
    let q = pairs.push((key, v));
    assert(q.drop_last() == pairs);
    assert(key_map(q) =~= key_map(pairs).insert(key@, v as int));
}

/// When every recorded index is below `n`, so is every index of the map.
proof fn lemma_key_map_below(pairs: Seq<(String, usize)>, n: int)
    requires
        forall|j: int| 0 <= j < pairs.len() ==> #[trigger] pairs[j].1 < n,
    ensures
        forall|k: Seq<char>| #[trigger] key_map(pairs).contains_key(k) ==> 0 <= key_map(pairs)[k] < n,
{
    assert forall|k: Seq<char>| #[trigger] key_map(pairs).contains_key(k) implies 0 <= key_map(pairs)[k] < n by {
        lemma_lookup_some(pairs, k);
        let v = lookup(pairs, k)->0;
        let j = choose|j: int| 0 <= j < pairs.len() && #[trigger] pairs[j].1 == v;
        assert(pairs[j].1 < n);
    }
}

impl Capture {
    #[verifier::type_invariant]
    spec fn indices_in_range(&self) -> bool {
        forall|j: int| 0 <= j < self.current@.len() ==> #[trigger] self.current@[j].1 < self.requests@.len()
    }

    /// A capture that has seen nothing.
    pub fn new() -> (c: Self)
        ensures
            c@.requests == Seq::<RequestView>::empty(),
            c@.current == Map::<Seq<char>, int>::empty(),
            capture_wf(c@),
    {
        let c = Capture { requests: Vec::new(), current: Vec::new() };
        proof {
            assert(c@.requests =~= Seq::<RequestView>::empty());
            assert(c@.current =~= Map::<Seq<char>, int>::empty());
        }
        c
    }

    /// The hops captured so far, in arrival order.
    pub fn requests(&self) -> (r: &Vec<Request>)
        ensures
            request_views(r@) == self@.requests,
    {
        &self.requests
    }

    /// Takes in one protocol message of the capture.
    pub fn on_message(&mut self, msg: &Json, session_id: &str)
        ensures
            final(self)@ == capture_step(old(self)@, *msg, session_id@),
            capture_wf(final(self)@),
    {
        proof {
            use_type_invariant(&*self);
        }
        let mut taken = Capture::new();
        std::mem::swap(&mut taken, self);
        let Capture { mut requests, mut current } = taken;
        step_parts(&mut requests, &mut current, msg, session_id);
        *self = Capture { requests, current };
        proof {
            use_type_invariant(&*self);
            lemma_key_map_below(self.current@, self.requests@.len() as int);
        }
    }
}

/// Every recorded index refers to a hop.
pub open spec fn in_range(requests: Seq<Request>, pairs: Seq<(String, usize)>) -> bool {
    forall|j: int| 0 <= j < pairs.len() ==> #[trigger] pairs[j].1 < requests.len()
}

/// The latest hop of the request id `key`.
fn find(requests: &Vec<Request>, current: &Vec<(String, usize)>, key: &Vec<char>) -> (r: Option<usize>)
    requires
        in_range(requests@, current@),
    ensures
        r == lookup(current@, key@),
        r matches Some(i) ==> i < requests@.len(),
{
    proof {
        lemma_lookup_some(current@, key@);
    }
    let mut n: usize = current.len();
    proof {
        assert(current@.take(n as int) == current@);
    }
    while n > 0
        invariant
            n <= current@.len(),
            in_range(requests@, current@),
            lookup(current@, key@) == lookup(current@.take(n as int), key@),
        decreases n,
    {
        let t = chars_of(current[n - 1].0.as_str());
        proof {
            let pre = current@.take(n as int);
            assert(pre.last() == current@[n - 1]);
            assert(pre.drop_last() == current@.take(n - 1));
        }
        if crate::json::chars_equal(&t, key) {
            return Some(current[n - 1].1);
        }
        n = n - 1;
    }
    None
}

/// Takes in one protocol message, on the two parts of a capture.
fn step_parts(
    requests: &mut Vec<Request>,
    current: &mut Vec<(String, usize)>,
    msg: &Json,
    session_id: &str,
)
    requires
        in_range(old(requests)@, old(current)@),
    ensures
        in_range(final(requests)@, final(current)@),
        (CaptureView { requests: request_views(final(requests)@), current: key_map(final(current)@) })
            == capture_step(
            CaptureView { requests: request_views(old(requests)@), current: key_map(old(current)@) },
            *msg,
            session_id@,
        ),
{
    proof {
        lemma_key_map_below(current@, requests@.len() as int);
    }
    let ghost c0 = CaptureView { requests: request_views(requests@), current: key_map(current@) };
    match get_text(Some(msg), "sessionId") {
        Some(s) => if !str_eq(s.as_str(), session_id) {
            return;
        },
        None => return,
    }
    let method = string_or(get_text(Some(msg), "method"), "");
    let p = match msg.get("params") {
        Some(p) => p,
        None => return,
    };
    let id_text = string_or(get_text(Some(p), "requestId"), "");
    let id = chars_of(id_text.as_str());
    if str_eq(method.as_str(), "Network.requestWillBeSent") {
        if id.len() == 0 {
            return;
        }
        let ts = get_number(get_member(Some(p), "timestamp"));
        if let Some(rd) = p.get("redirectResponse") {
            if let Some(i) = find(requests, current, &id) {
                let mut hop = copy_request(&requests[i]);
                hop.status = get_int(Some(rd), "status");
                hop.end = Some(Stamp { seconds: copy_opt_number(&ts) });
                requests.set(i, hop);
                proof {
                    assert(request_views(requests@) =~= c0.requests.update(
                        i as int,
                        redirected(c0.requests[i as int], member_int(Some(*rd), "status"@), ts),
                    ));
                }
            }
        }
        let ghost hops = request_views(requests@);
        let request = get_member(Some(p), "request");
        let hop = Request {
            method: string_or(get_text(request, "method"), ""),
            url: string_or(get_text(request, "url"), ""),
            status: None,
            resource_type: match get_text(Some(p), "type") {
                Some(t) => Some(t.clone()),
                None => None,
            },
            encoded_len: None,
            start: Stamp { seconds: ts },
            end: None,
            failed: None,
        };
        requests.push(hop);
        let index = requests.len() - 1;
        let key = string_of(&id);
        proof {
            lemma_key_map_push(current@, key, index);
            assert(request_views(requests@) =~= hops.push(hop@));
        }
        current.push((key, index));
    } else if let Some(i) = find(requests, current, &id) {
        let mut hop = copy_request(&requests[i]);
        if str_eq(method.as_str(), "Network.responseReceived") {
            hop.status = get_int(get_member(Some(p), "response"), "status");
            if let Some(t) = get_text(Some(p), "type") {
                hop.resource_type = Some(t.clone());
            }
        } else if str_eq(method.as_str(), "Network.loadingFinished") {
            hop.end = Some(Stamp { seconds: get_number(get_member(Some(p), "timestamp")) });
            if let Some(n) = get_number(get_member(Some(p), "encodedDataLength")) {
                hop.encoded_len = Some(n);
            }
        } else if str_eq(method.as_str(), "Network.loadingFailed") {
            hop.end = Some(Stamp { seconds: get_number(get_member(Some(p), "timestamp")) });
            hop.failed = Some(string_or(get_text(Some(p), "errorText"), "failed"));
        } else {
            return;
        }
        requests.set(i, hop);
        proof {
            assert(request_views(requests@) =~= c0.requests.update(i as int, hop@));
        }
    }
}

/// Whether a hop passes the filter: its URL contains the filter text, if there is one.
pub open spec fn passes(r: RequestView, filter: Option<Seq<char>>) -> bool {
    match filter {
        Some(f) => contains_seq(r.url, f),
        None => true,
    }
}

/// The hops that pass the filter, in order.
pub open spec fn filtered(rs: Seq<RequestView>, filter: Option<Seq<char>>) -> Seq<RequestView>
    decreases rs.len(),
{
    if rs.len() == 0 {
        Seq::empty()
    } else {
        let before = filtered(rs.drop_last(), filter);
        if passes(rs.last(), filter) {
            before.push(rs.last())
        } else {
            before
        }
    }
}

/// The captured hops that the parameters' filter keeps, in arrival order.
pub fn network(capture: &Capture, params: &NetworkParams) -> (r: Vec<Request>)
    ensures
        request_views(r@) == filtered(capture@.requests, opt_chars(params.filter)),
{
    let all = capture.requests();
    let pattern: Option<Vec<char>> = match &params.filter {
        Some(f) => Some(chars_of(f.as_str())),
        None => None,
    };
    let mut out: Vec<Request> = Vec::new();
    let mut i: usize = 0;
    proof {
        assert(request_views(all@).take(0) =~= Seq::<RequestView>::empty());
        assert(request_views(out@) =~= Seq::<RequestView>::empty());
    }
    while i < all.len()
        invariant
            i <= all@.len(),
            request_views(all@) == capture@.requests,
            match pattern {
                Some(p) => opt_chars(params.filter) == Some(p@),
                None => opt_chars(params.filter) is None,
            },
            request_views(out@) == filtered(request_views(all@).take(i as int), opt_chars(params.filter)),
        decreases all@.len() - i,
    {
        let r = &all[i];
        let ghost before = request_views(out@);
        proof {
            let t = request_views(all@).take(i + 1);
            assert(t.drop_last() == request_views(all@).take(i as int));
            assert(t.last() == r@);
        }
        let keep = match &pattern {
            Some(p) => {
                let url = chars_of(r.url.as_str());
                chars_contain(&url, p)
            },
            None => true,
        };
        if keep {
            out.push(copy_request(r));
            proof {
                assert(request_views(out@) =~= before.push(r@));
            }
        }
        i = i + 1;
    }
    proof {
        assert(request_views(all@).take(all@.len() as int) == request_views(all@));
    }
    out
}

/// The status column of a hop: `ERR` when it failed, else its status, else a dash.
pub open spec fn status_label_of(r: RequestView) -> Seq<char> {
    if r.failed is Some {
        "ERR"@
    } else {
        match r.status {
            Some(s) => signed_decimal(s as int),
            None => "\u{2014}"@,
        }
    }
}

/// The status column of a hop.
pub fn status_label(r: &Request) -> (l: String)
    ensures
        l@ == status_label_of(r@),
{
    if r.failed.is_some() {
        return String::from_str("ERR");
    }
    match r.status {
        Some(s) => signed_decimal_string(s),
        None => String::from_str("\u{2014}"),
    }
}

/// A message never removes or reorders hops: it adds at most one at the end, keeps the
/// method, URL and start of every earlier hop, and keeps every request id on a hop.
pub proof fn lemma_capture_keeps_hops(c: CaptureView, msg: Json, session: Seq<char>)
    requires
        capture_wf(c),
    ensures
        ({
            let n = capture_step(c, msg, session);
            &&& n.requests.len() == c.requests.len() || n.requests.len() == c.requests.len() + 1
            &&& forall|i: int|
                0 <= i < c.requests.len() ==> (#[trigger] n.requests[i]).url == c.requests[i].url
                    && n.requests[i].method == c.requests[i].method && n.requests[i].start
                    == c.requests[i].start
            &&& capture_wf(n)
        }),
{
}

/// A new request of the session gets a hop of its own at the end, with the method, URL
/// and type of the event, its time as start, and nothing else yet; its id then refers to
/// that hop. A redirect first gives the id's previous hop the redirect's status and ends
/// it at the new hop's start; no other hop changes.
pub proof fn lemma_request_adds_hop(c: CaptureView, msg: Json, session: Seq<char>, p: Json)
    requires
        capture_wf(c),
        member_text(Some(msg), "sessionId"@) == Some(session),
        member_text(Some(msg), "method"@) == Some("Network.requestWillBeSent"@),
        msg.field("params"@) == Some(p),
        text_or(member_text(Some(p), "requestId"@), ""@).len() > 0,
    ensures
        ({
            let n = capture_step(c, msg, session);
            let id = text_or(member_text(Some(p), "requestId"@), ""@);
            let ts = number_of(member_of(Some(p), "timestamp"@));
            &&& n.requests.len() == c.requests.len() + 1
            &&& n.current[id] == c.requests.len()
            &&& n.requests.last().start == ts
            &&& n.requests.last().method == text_or(member_text(member_of(Some(p), "request"@), "method"@), ""@)
            &&& n.requests.last().url == text_or(member_text(member_of(Some(p), "request"@), "url"@), ""@)
            &&& n.requests.last().resource_type == member_text(Some(p), "type"@)
            &&& n.requests.last().status is None
            &&& n.requests.last().end is None
            &&& n.requests.last().failed is None
            &&& n.requests.last().encoded_len is None
            &&& (p.field("redirectResponse"@) is Some && c.current.contains_key(id)) ==> n.requests[c.current[id]].end
                == Some(ts) && n.requests[c.current[id]].status == member_int(
                member_of(Some(p), "redirectResponse"@),
                "status"@,
            )
            &&& forall|i: int|
                0 <= i < c.requests.len() && !(p.field("redirectResponse"@) is Some && c.current.contains_key(id)
                    && i == c.current[id]) ==> #[trigger] n.requests[i] == c.requests[i]
        }),
{
}

/// The filter keeps exactly the hops whose URL contains its text, in their order; without
/// a filter every hop is kept.
pub proof fn lemma_filter_keeps_matching(rs: Seq<RequestView>, filter: Option<Seq<char>>)
    ensures
        forall|i: int| 0 <= i < filtered(rs, filter).len() ==> passes(#[trigger] filtered(rs, filter)[i], filter),
        filter is None ==> filtered(rs, filter) == rs,
        filtered(rs, filter).len() <= rs.len(),
    decreases rs.len(),
{
    if rs.len() > 0 {
        lemma_filter_keeps_matching(rs.drop_last(), filter);
        assert(rs.drop_last().push(rs.last()) == rs);
    }
}

/// A response, a finished load or a failed load of a request id of the session changes
/// only that id's latest hop, and only as follows: a response sets its status (and its
/// type, when the event gives one); a finished load sets its end and, when given, its
/// encoded length; a failed load sets its end and its error text (`failed` when none is
/// given). Its method, URL and start stay, as do all other hops and ids.
pub proof fn lemma_load_events(c: CaptureView, msg: Json, session: Seq<char>, p: Json)
    requires
        capture_wf(c),
        member_text(Some(msg), "sessionId"@) == Some(session),
        msg.field("params"@) == Some(p),
        c.current.contains_key(text_or(member_text(Some(p), "requestId"@), ""@)),
    ensures
        ({
            let n = capture_step(c, msg, session);
            let method = member_text(Some(msg), "method"@);
            let i = c.current[text_or(member_text(Some(p), "requestId"@), ""@)];
            let (old_hop, hop) = (c.requests[i], n.requests[i]);
            let ts = number_of(member_of(Some(p), "timestamp"@));
            &&& (method == Some("Network.responseReceived"@) || method == Some("Network.loadingFinished"@)
                || method == Some("Network.loadingFailed"@)) ==> {
                &&& n.requests.len() == c.requests.len()
                &&& n.current == c.current
                &&& forall|j: int| 0 <= j < c.requests.len() && j != i ==> #[trigger] n.requests[j] == c.requests[j]
                &&& hop.method == old_hop.method && hop.url == old_hop.url && hop.start == old_hop.start
            }
            &&& method == Some("Network.responseReceived"@) ==> {
                &&& hop.status == member_int(member_of(Some(p), "response"@), "status"@)
                &&& hop.resource_type == (if member_text(Some(p), "type"@) is Some {
                    member_text(Some(p), "type"@)
                } else {
                    old_hop.resource_type
                })
                &&& hop.end == old_hop.end && hop.failed == old_hop.failed && hop.encoded_len == old_hop.encoded_len
            }
            &&& method == Some("Network.loadingFinished"@) ==> {
                &&& hop.end == Some(ts)
                &&& hop.encoded_len == (if number_of(member_of(Some(p), "encodedDataLength"@)) is Some {
                    number_of(member_of(Some(p), "encodedDataLength"@))
                } else {
                    old_hop.encoded_len
                })
                &&& hop.status == old_hop.status && hop.failed == old_hop.failed
                    && hop.resource_type == old_hop.resource_type
            }
            &&& method == Some("Network.loadingFailed"@) ==> {
                &&& hop.end == Some(ts)
                &&& hop.failed == Some(
                    if member_text(Some(p), "errorText"@) is Some {
                        member_text(Some(p), "errorText"@)->0
                    } else {
                        "failed"@
                    },
                )
                &&& hop.status == old_hop.status && hop.encoded_len == old_hop.encoded_len
                    && hop.resource_type == old_hop.resource_type
            }
        }),
{
    lemma_method_names_distinct();
}

/// The four followed method names differ from one another.
proof fn lemma_method_names_distinct()
    ensures
        "Network.requestWillBeSent"@ != "Network.responseReceived"@,
        "Network.requestWillBeSent"@ != "Network.loadingFinished"@,
        "Network.requestWillBeSent"@ != "Network.loadingFailed"@,
        "Network.responseReceived"@ != "Network.loadingFinished"@,
        "Network.responseReceived"@ != "Network.loadingFailed"@,
        "Network.loadingFinished"@ != "Network.loadingFailed"@,
{
    reveal_strlit("Network.requestWillBeSent");
    reveal_strlit("Network.responseReceived");
    reveal_strlit("Network.loadingFinished");
    reveal_strlit("Network.loadingFailed");
    assert("Network.requestWillBeSent"@[10] != "Network.responseReceived"@[10]);
    assert("Network.requestWillBeSent"@[8] != "Network.loadingFinished"@[8]);
    assert("Network.requestWillBeSent"@[8] != "Network.loadingFailed"@[8]);
    assert("Network.responseReceived"@[8] != "Network.loadingFinished"@[8]);
    assert("Network.responseReceived"@[8] != "Network.loadingFailed"@[8]);
    assert("Network.loadingFinished"@[16] != "Network.loadingFailed"@[16]);
}

/// A filter keeps exactly the hops whose URL holds the filter text somewhere, in their
/// arrival order.
pub proof fn lemma_filter_is_substring_match(rs: Seq<RequestView>, f: Seq<char>)
    ensures
        filtered(rs, Some(f)) == rs.filter(
            |r: RequestView|
                exists|i: int| 0 <= i && i + f.len() <= r.url.len() && #[trigger] r.url.subrange(i, i + f.len()) == f,
        ),
    decreases rs.len(),
{
    let pred = |r: RequestView|
        exists|i: int| 0 <= i && i + f.len() <= r.url.len() && #[trigger] r.url.subrange(i, i + f.len()) == f;
    reveal(Seq::filter);
    if rs.len() > 0 {
        lemma_filter_is_substring_match(rs.drop_last(), f);
        let r = rs.last();
        if passes(r, Some(f)) {
            let i = choose|i: int| crate::text::occurs_at(r.url, f, i);
            assert(r.url.subrange(i, i + f.len()) == f);
            assert(pred(r));
        } else {
            if pred(r) {
                let i = choose|i: int| 0 <= i && i + f.len() <= r.url.len() && #[trigger] r.url.subrange(i, i + f.len()) == f;
                assert(crate::text::occurs_at(r.url, f, i));
            }
            assert(!pred(r));
        }
    }
}

/// `n` spaces.
pub open spec fn spaces(n: nat) -> Seq<char> {
    Seq::new(n, |i: int| ' ')
}

/// `s` followed by spaces up to `w` characters, as `{:<w}` writes it.
pub open spec fn pad_right(s: Seq<char>, w: nat) -> Seq<char> {
    if s.len() >= w {
        s
    } else {
        s + spaces((w - s.len()) as nat)
    }
}

/// `s` after spaces up to `w` characters, as `{:>w}` writes it.
pub open spec fn pad_left(s: Seq<char>, w: nat) -> Seq<char> {
    if s.len() >= w {
        s
    } else {
        spaces((w - s.len()) as nat) + s
    }
}

/// The type column of a hop: its resource type, or a dash.
pub open spec fn type_label_of(r: RequestView) -> Seq<char> {
    match r.resource_type {
        Some(t) => t,
        None => "\u{2014}"@,
    }
}

/// The head line of the table.
pub open spec fn table_header() -> Seq<char> {
    pad_right("STATUS"@, 6) + " "@ + pad_right("METHOD"@, 6) + " "@ + pad_right("TYPE"@, 11) + " "@
        + pad_left("SIZE"@, 9) + " "@ + pad_left("TIME"@, 7) + "  URL\n"@
}

/// The lines of one hop: status, method, type, size and time in their columns, then the
/// URL; a failed hop gets a second line with its error.
pub open spec fn table_row(r: RequestView, size: Seq<char>, time: Seq<char>) -> Seq<char> {
    row_columns(r, size, time) + "  "@ + r.url + "\n"@ + failure_line(r)
}

/// The status, method, type, size and time columns of a hop.
pub open spec fn row_columns(r: RequestView, size: Seq<char>, time: Seq<char>) -> Seq<char> {
    pad_right(status_label_of(r), 6) + " "@ + pad_right(r.method, 6) + " "@ + pad_right(
        type_label_of(r),
        11,
    ) + " "@ + pad_left(size, 9) + " "@ + pad_left(time, 7)
}

/// The error line of a failed hop; nothing for another.
pub open spec fn failure_line(r: RequestView) -> Seq<char> {
    match r.failed {
        Some(e) => "       \u{2514}\u{2500} "@ + e + "\n"@,
        None => Seq::empty(),
    }
}

/// The lines of the hops, in order, with their size and time columns.
pub open spec fn table_rows(rs: Seq<RequestView>, sizes: Seq<Seq<char>>, times: Seq<Seq<char>>) -> Seq<char>
    decreases rs.len(),
{
    if rs.len() == 0 {
        Seq::empty()
    } else {
        table_rows(rs.drop_last(), sizes.drop_last(), times.drop_last()) + table_row(
            rs.last(),
            sizes.last(),
            times.last(),
        )
    }
}

/// The text report of the hops: the table and a line with their count and the total
/// transferred, or a notice that nothing was captured.
pub open spec fn network_table_text(
    rs: Seq<RequestView>,
    sizes: Seq<Seq<char>>,
    times: Seq<Seq<char>>,
    total: Seq<char>,
) -> Seq<char> {
    if rs.len() == 0 {
        "No network requests captured."@
    } else {
        table_header() + table_rows(rs, sizes, times) + "\n"@ + decimal(rs.len()) + " request(s), "@
            + total + " transferred"@
    }
}

/// Appends `n` spaces.
fn push_spaces(out: &mut String, n: usize)
    ensures
        final(out)@ == old(out)@ + spaces(n as nat),
{
    let ghost start = out@;
    let mut k: usize = 0;
    while k < n
        invariant
            k <= n,
            out@ == start + spaces(k as nat),
        decreases n - k,
    {
        push_char(out, ' ');
        k = k + 1;
        proof {
            assert(out@ =~= start + spaces(k as nat));
        }
    }
    proof {
        assert(out@ =~= start + spaces(n as nat));
    }
}

/// Appends `s` padded on the right to `w` characters.
fn push_pad_right(out: &mut String, s: &str, w: usize)
    ensures
        final(out)@ == old(out)@ + pad_right(s@, w as nat),
{
    let n = chars_of(s).len();
    out.append(s);
    if n < w {
        push_spaces(out, w - n);
        proof {
            assert(final(out)@ =~= old(out)@ + pad_right(s@, w as nat));
        }
    }
}

/// Appends `s` padded on the left to `w` characters.
fn push_pad_left(out: &mut String, s: &str, w: usize)
    ensures
        final(out)@ == old(out)@ + pad_left(s@, w as nat),
{
    let n = chars_of(s).len();
    if n < w {
        push_spaces(out, w - n);
    }
    out.append(s);
    proof {
        assert(final(out)@ =~= old(out)@ + pad_left(s@, w as nat));
    }
}

/// Appends the columns of one hop.
fn push_row_columns(out: &mut String, r: &Request, size: &str, time: &str)
    ensures
        final(out)@ == old(out)@ + row_columns(r@, size@, time@),
{
    let status = status_label(r);
    let kind = match &r.resource_type {
        Some(t) => t.clone(),
        None => String::from_str("\u{2014}"),
    };
    push_pad_right(out, status.as_str(), 6);
    out.append(" ");
    push_pad_right(out, r.method.as_str(), 6);
    out.append(" ");
    push_pad_right(out, kind.as_str(), 11);
    out.append(" ");
    push_pad_left(out, size, 9);
    out.append(" ");
    push_pad_left(out, time, 7);
    proof {
        assert(kind@ == type_label_of(r@));
        assert(final(out)@ =~= old(out)@ + row_columns(r@, size@, time@));
    }
}

/// Appends the error line of a failed hop.
fn push_failure_line(out: &mut String, r: &Request)
    ensures
        final(out)@ == old(out)@ + failure_line(r@),
{
    match &r.failed {
        Some(e) => {
            out.append("       \u{2514}\u{2500} ");
            out.append(e.as_str());
            out.append("\n");
            proof {
                assert(final(out)@ =~= old(out)@ + failure_line(r@));
            }
        },
        None => {
            proof {
                assert(final(out)@ =~= old(out)@ + failure_line(r@));
            }
        },
    }
}

/// Appends the lines of one hop.
fn push_table_row(out: &mut String, r: &Request, size: &str, time: &str)
    ensures
        final(out)@ == old(out)@ + table_row(r@, size@, time@),
{
    push_row_columns(out, r, size, time);
    let ghost a = out@;
    out.append("  ");
    out.append(r.url.as_str());
    out.append("\n");
    let ghost b = out@;
    push_failure_line(out, r);
    proof {
        let c = row_columns(r@, size@, time@);
        assert(a == old(out)@ + c);
        assert(b == a + "  "@ + r.url@ + "\n"@);
        assert(final(out)@ == b + failure_line(r@));
        assert(final(out)@ =~= old(out)@ + table_row(r@, size@, time@));
    }
}

/// Writes the text report of the kept hops, given each hop's size and time column and
/// the total transferred (all three written by the caller).
pub fn network_table(rows: &Vec<Request>, sizes: &Vec<String>, times: &Vec<String>, total: &str) -> (t: String)
    requires
        sizes@.len() == rows@.len(),
        times@.len() == rows@.len(),
    ensures
        t@ == network_table_text(
            request_views(rows@),
            Seq::new(sizes@.len(), |i: int| sizes@[i]@),
            Seq::new(times@.len(), |i: int| times@[i]@),
            total@,
        ),
{
    if rows.len() == 0 {
        return String::from_str("No network requests captured.");
    }
    let ghost rs = request_views(rows@);
    let ghost ss = Seq::new(sizes@.len(), |i: int| sizes@[i]@);
    let ghost ts = Seq::new(times@.len(), |i: int| times@[i]@);
    let mut out = String::new();
    push_pad_right(&mut out, "STATUS", 6);
    out.append(" ");
    push_pad_right(&mut out, "METHOD", 6);
    out.append(" ");
    push_pad_right(&mut out, "TYPE", 11);
    out.append(" ");
    push_pad_left(&mut out, "SIZE", 9);
    out.append(" ");
    push_pad_left(&mut out, "TIME", 7);
    out.append("  URL\n");
    proof {
        assert(out@ =~= table_header());
    }
    let ghost head = out@;
    let mut i: usize = 0;
    proof {
        assert(rs.take(0) =~= Seq::<RequestView>::empty());
    }
    while i < rows.len()
        invariant
            i <= rows@.len(),
            sizes@.len() == rows@.len(),
            times@.len() == rows@.len(),
            rs == request_views(rows@),
            ss == Seq::new(sizes@.len(), |i: int| sizes@[i]@),
            ts == Seq::new(times@.len(), |i: int| times@[i]@),
            out@ == head + table_rows(rs.take(i as int), ss.take(i as int), ts.take(i as int)),
        decreases rows@.len() - i,
    {
        let ghost before = out@;
        push_table_row(&mut out, &rows[i], sizes[i].as_str(), times[i].as_str());
        proof {
            assert(rs.take(i + 1).drop_last() == rs.take(i as int));
            assert(ss.take(i + 1).drop_last() == ss.take(i as int));
            assert(ts.take(i + 1).drop_last() == ts.take(i as int));
            assert(rs.take(i + 1).last() == rows@[i as int]@);
            assert(ss.take(i + 1).last() == sizes@[i as int]@);
            assert(ts.take(i + 1).last() == times@[i as int]@);
            assert(out@ =~= head + table_rows(rs.take(i + 1), ss.take(i + 1), ts.take(i + 1)));
        }
        i = i + 1;
    }
    proof {
        assert(rs.take(rows@.len() as int) == rs);
        assert(ss.take(rows@.len() as int) == ss);
        assert(ts.take(rows@.len() as int) == ts);
    }
    out.append("\n");
    push_decimal(&mut out, rows.len() as u64);
    out.append(" request(s), ");
    out.append(total);
    out.append(" transferred");
    proof {
        assert(out@ =~= network_table_text(rs, ss, ts, total@));
    }
    out
}

/// A message that the capture ignores in state `c`: it is of another session or has no
/// parameters, it is of a method other than the four that are followed, it announces a
/// request without an id, or it reports on an id that no request of the session announced.
pub open spec fn inert(c: CaptureView, msg: Json, session: Seq<char>) -> bool {
    let method = text_or(member_text(Some(msg), "method"@), ""@);
    if member_text(Some(msg), "sessionId"@) != Some(session) {
        true
    } else {
        match msg.field("params"@) {
            None => true,
            Some(p) => {
                let id = text_or(member_text(Some(p), "requestId"@), ""@);
                if method == "Network.requestWillBeSent"@ {
                    id.len() == 0
                } else if method == "Network.responseReceived"@ || method == "Network.loadingFinished"@
                    || method == "Network.loadingFailed"@ {
                    !c.current.contains_key(id)
                } else {
                    true
                }
            },
        }
    }
}

/// The capture after a stream of messages, one after the other.
pub open spec fn capture_all(c: CaptureView, msgs: Seq<Json>, session: Seq<char>) -> CaptureView
    decreases msgs.len(),
{
    if msgs.len() == 0 {
        c
    } else {
        capture_all(capture_step(c, msgs[0], session), msgs.drop_first(), session)
    }
}

/// The messages of a stream that the capture does not ignore, each judged in the state
/// that the messages before it lead to.
pub open spec fn without_inert(c: CaptureView, msgs: Seq<Json>, session: Seq<char>) -> Seq<Json>
    decreases msgs.len(),
{
    if msgs.len() == 0 {
        Seq::empty()
    } else if inert(c, msgs[0], session) {
        without_inert(c, msgs.drop_first(), session)
    } else {
        seq![msgs[0]] + without_inert(capture_step(c, msgs[0], session), msgs.drop_first(), session)
    }
}

/// An ignored message leaves the capture as it is.
pub proof fn lemma_inert_step(c: CaptureView, msg: Json, session: Seq<char>)
    requires
        inert(c, msg, session),
    ensures
        capture_step(c, msg, session) == c,
{
}

/// A capture fed a stream ends as one fed only the stream's messages that it does not
/// ignore: messages of other sessions, without parameters, of other methods, announcing
/// no id, or about ids that no request of the session announced change nothing.
pub proof fn lemma_capture_without_inert(c: CaptureView, msgs: Seq<Json>, session: Seq<char>)
    ensures
        capture_all(c, msgs, session) == capture_all(c, without_inert(c, msgs, session), session),
    decreases msgs.len(),
{
    if msgs.len() > 0 {
        let c1 = capture_step(c, msgs[0], session);
        lemma_capture_without_inert(c1, msgs.drop_first(), session);
        if inert(c, msgs[0], session) {
            lemma_capture_without_inert(c, msgs.drop_first(), session);
        } else {
            let w = without_inert(c1, msgs.drop_first(), session);
            assert((seq![msgs[0]] + w)[0] == msgs[0]);
            assert((seq![msgs[0]] + w).drop_first() == w);
        }
    }
}

/// Two streams that differ only by messages that the capture ignores (of other sessions,
/// without parameters, of other methods, announcing no id, or about ids that no request
/// of the session announced) give the same capture.
pub proof fn lemma_inert_messages_ignored(c: CaptureView, s1: Seq<Json>, s2: Seq<Json>, session: Seq<char>)
    requires
        without_inert(c, s1, session) == without_inert(c, s2, session),
    ensures
        capture_all(c, s1, session) == capture_all(c, s2, session),
{
    lemma_capture_without_inert(c, s1, session);
    lemma_capture_without_inert(c, s2, session);
}

/// An integer as a JSON number.
pub open spec fn int_json(i: i64) -> JsonV {
    JsonV::Number(Some(i), if i >= 0 { Some(i as u64) } else { None }, signed_decimal(i as int))
}

/// An optional integer as a JSON number, or null.
pub open spec fn opt_int_json(o: Option<i64>) -> JsonV {
    match o {
        Some(i) => int_json(i),
        None => JsonV::Null,
    }
}

/// An optional text as a JSON string, or null.
pub open spec fn opt_text_json(o: Option<Seq<char>>) -> JsonV {
    match o {
        Some(t) => JsonV::Str(t),
        None => JsonV::Null,
    }
}

/// The JSON form of a hop, with its encoded length in whole bytes and its duration in
/// whole milliseconds.
pub open spec fn request_json(r: RequestView, bytes: i64, ms: Option<i64>) -> JsonV {
    JsonV::Object(
        seq![
            ("method"@, JsonV::Str(r.method)),
            ("url"@, JsonV::Str(r.url)),
            ("status"@, opt_int_json(r.status)),
            ("type"@, opt_text_json(r.resource_type)),
            ("encodedBytes"@, int_json(bytes)),
            ("durationMs"@, opt_int_json(ms)),
            ("error"@, opt_text_json(r.failed)),
        ],
    )
}

/// The JSON document `{"requests": [...]}` of the hops.
pub open spec fn requests_json(rs: Seq<RequestView>, bytes: Seq<i64>, ms: Seq<Option<i64>>) -> JsonV {
    JsonV::Object(
        seq![("requests"@, JsonV::Array(Seq::new(rs.len(), |k: int| request_json(rs[k], bytes[k], ms[k]))))],
    )
}

/// An integer as a JSON number.
fn int_number(i: i64) -> (j: Json)
    ensures
        j@ == int_json(i),
{
    Json::Number(
        JsonNumber {
            as_i64: Some(i),
            as_u64: if i >= 0 { Some(i as u64) } else { None },
            text: signed_decimal_string(i),
        },
    )
}

/// An optional integer as a JSON number, or null.
fn opt_int_number(o: Option<i64>) -> (j: Json)
    ensures
        j@ == opt_int_json(o),
{
    match o {
        Some(i) => int_number(i),
        None => Json::Null,
    }
}

/// An optional text as a JSON string, or null.
fn opt_text_string(o: &Option<String>) -> (j: Json)
    ensures
        j@ == opt_text_json(opt_chars(*o)),
{
    match o {
        Some(t) => Json::Str(t.clone()),
        None => Json::Null,
    }
}

/// The JSON form of a hop.
fn request_to_json(r: &Request, bytes: i64, ms: Option<i64>) -> (j: Json)
    ensures
        j@ == request_json(r@, bytes, ms),
{
    let members = vec![
        (String::from_str("method"), Json::Str(r.method.clone())),
        (String::from_str("url"), Json::Str(r.url.clone())),
        (String::from_str("status"), opt_int_number(r.status)),
        (String::from_str("type"), opt_text_string(&r.resource_type)),
        (String::from_str("encodedBytes"), int_number(bytes)),
        (String::from_str("durationMs"), opt_int_number(ms)),
        (String::from_str("error"), opt_text_string(&r.failed)),
    ];
    proof {
        lemma_members_view(members@);
        assert(crate::json::members_view(members@) =~= request_json(r@, bytes, ms)->Object_0);
    }
    Json::Object(members)
}

/// The JSON report of the hops, pretty-printed: for each hop its method, URL, status,
/// type and error, with its encoded length in `bytes` and its duration in `durations`
/// (whole numbers, which the caller rounds).
pub fn network_json(rows: &Vec<Request>, bytes: &Vec<i64>, durations: &Vec<Option<i64>>) -> (t: String)
    requires
        bytes@.len() == rows@.len(),
        durations@.len() == rows@.len(),
    ensures
        t@ == pretty_text(requests_json(request_views(rows@), bytes@, durations@)),
{
    let mut items: Vec<Json> = Vec::new();
    let mut i: usize = 0;
    while i < rows.len()
        invariant
            i <= rows@.len(),
            bytes@.len() == rows@.len(),
            durations@.len() == rows@.len(),
            items@.len() == i,
            forall|k: int| 0 <= k < i ==> #[trigger] items@[k]@ == request_json(rows@[k]@, bytes@[k], durations@[k]),
        decreases rows@.len() - i,
    {
        let item = request_to_json(&rows[i], bytes[i], durations[i]);
        items.push(item);
        i = i + 1;
    }
    let ghost rs = request_views(rows@);
    let ghost arr = Seq::new(rs.len(), |k: int| request_json(rs[k], bytes@[k], durations@[k]));
    proof {
        lemma_elements_view(items@);
        assert forall|k: int| 0 <= k < items@.len() implies crate::json::json_view(items@[k]) == arr[k] by {
            assert(items@[k]@ == request_json(rows@[k]@, bytes@[k], durations@[k]));
        }
        assert(crate::json::elements_view(items@) =~= arr);
    }
    let members = vec![(String::from_str("requests"), Json::Array(items))];
    proof {
        lemma_members_view(members@);
        assert(crate::json::members_view(members@) =~= seq![("requests"@, JsonV::Array(arr))]);
    }
    let doc = Json::Object(members);
    pretty_json(&doc)
}

} // verus!
