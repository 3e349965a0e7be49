//! The decisions of the HTTP server: which routes it serves, what an
//! incoming request gives its track, and what it answers.
//!
//! Route specifications are parsed by the `routefinder` crate. The server
//! keeps, for each connection waiting for its response, what the response is
//! written into, under the connection's identifier.
use vstd::prelude::*;
use crate::data::{StringMap, pairs_view, value_of};
use vstd::string::StringExecFns;
use crate::text::same_text;
use super::headers::{outgoing_headers, sendable};
use super::method::HttpMethod;
use super::status::HttpStatus;

verus! {

/// Whether a route is served for the method named `name`: the server routes
/// `DELETE`, `GET`, `PATCH`, `POST` and `PUT` requests only.
pub open spec fn is_routable(name: Seq<char>) -> bool {
    ||| name == seq!['D', 'E', 'L', 'E', 'T', 'E']
    ||| name == seq!['G', 'E', 'T']
    ||| name == seq!['P', 'A', 'T', 'C', 'H']
    ||| name == seq!['P', 'O', 'S', 'T']
    ||| name == seq!['P', 'U', 'T']
}

/// Whether the server routes requests of method `method`.
pub fn routable(method: &HttpMethod) -> (r: bool)
    ensures
        r == is_routable(method.name@),
{
    let n = method.name.as_str();
    proof {
        reveal_strlit("DELETE");
        reveal_strlit("GET");
        reveal_strlit("PATCH");
        reveal_strlit("POST");
        reveal_strlit("PUT");
        assert("DELETE"@ =~= seq!['D', 'E', 'L', 'E', 'T', 'E']);
        assert("GET"@ =~= seq!['G', 'E', 'T']);
        assert("PATCH"@ =~= seq!['P', 'A', 'T', 'C', 'H']);
        assert("POST"@ =~= seq!['P', 'O', 'S', 'T']);
        assert("PUT"@ =~= seq!['P', 'U', 'T']);
    }
    same_text(n, "DELETE") || same_text(n, "GET") || same_text(n, "PATCH") || same_text(n, "POST")
        || same_text(n, "PUT")
}

/// The segments of the route specification `route` as `routefinder` parses
/// it, each parameter segment by its name and the others as `None`; `None`
/// if `route` is not a valid specification.
pub uninterp spec fn route_segments(route: Seq<char>) -> Option<Seq<Option<Seq<char>>>>;

/// `RouteSpec::try_from(route)` then `segments`, each `Segment::Param` by
/// its name. Claims the named result.
#[verifier::external_body]
fn parse_route(route: &str) -> (r: Option<Vec<Option<String>>>)
    ensures
        r is None <==> route_segments(route@) is None,
        r matches Some(s) ==> options_view(s@) == route_segments(route@)->0,
{
    match ::routefinder::RouteSpec::try_from(route) {
        Ok(spec) => Some(
            spec.segments().iter().map(
                |seg| match seg {
                    ::routefinder::Segment::Param(p) => Some(p.to_string()),
                    _ => None,
                },
            ).collect(),
        ),
        Err(_) => None,
    }
}

/// The view of a list of optional strings.
pub open spec fn options_view(v: Seq<Option<String>>) -> Seq<Option<Seq<char>>> {
    v.map_values(|o: Option<String>| match o { Some(s) => Some(s@), None => None })
}

/// The names of the parameter segments among `segments`, in order.
pub open spec fn param_names(segments: Seq<Option<Seq<char>>>) -> Seq<Seq<char>>
    decreases segments.len(),
{
    if segments.len() == 0 {
        Seq::empty()
    } else {
        match segments.last() {
            Some(n) => param_names(segments.drop_last()).push(n),
            None => param_names(segments.drop_last()),
        }
    }
}

/// A route the server serves: the method, the route specification, and the
/// names of its parameters.
pub struct ServedRoute {
    pub method: HttpMethod,
    pub route: String,
    pub params: Vec<String>,
}

/// The view of a served route.
pub open spec fn served_view(s: ServedRoute) -> (Seq<char>, Seq<char>, Seq<Seq<char>>) {
    (s.method.name@, s.route@, s.params@.map_values(|p: String| p@))
}

/// The routes served for the registered `(method, route)` pairs, in order:
/// those whose specification is valid and whose method is routable.
pub open spec fn served(routes: Seq<(Seq<char>, Seq<char>)>) -> Seq<(Seq<char>, Seq<char>, Seq<Seq<char>>)>
    decreases routes.len(),
{
    if routes.len() == 0 {
        Seq::empty()
    } else {
        let rest = served(routes.drop_last());
        let (m, r) = routes.last();
        match route_segments(r) {
            Some(segs) => if is_routable(m) {
                rest.push((m, r, param_names(segs)))
            } else {
                rest
            },
            None => rest,
        }
    }
}

/// The server serves exactly the registered routes whose specification
/// parses and whose method is `DELETE`, `GET`, `PATCH`, `POST` or `PUT`:
/// each served route is such a registered route with the names of its
/// parameters, and each such registered route is served.
pub proof fn lemma_served_routes(routes: Seq<(Seq<char>, Seq<char>)>)
    ensures
        forall|name: Seq<char>|
            #![trigger is_routable(name)]
            name == seq!['D', 'E', 'L', 'E', 'T', 'E'] || name == seq!['G', 'E', 'T'] || name == seq![
                'P',
                'A',
                'T',
                'C',
                'H',
            ] || name == seq!['P', 'O', 'S', 'T'] || name == seq!['P', 'U', 'T'] ==> is_routable(name),
        forall|k: int|
            #![trigger routes[k]]
            0 <= k < routes.len() && route_segments(routes[k].1) is Some && (routes[k].0 == seq![
                'D',
                'E',
                'L',
                'E',
                'T',
                'E',
            ] || routes[k].0 == seq!['G', 'E', 'T'] || routes[k].0 == seq!['P', 'A', 'T', 'C', 'H']
                || routes[k].0 == seq!['P', 'O', 'S', 'T'] || routes[k].0 == seq!['P', 'U', 'T'])
                ==> served(routes).contains(
                (routes[k].0, routes[k].1, param_names(route_segments(routes[k].1)->0)),
            ),
        forall|j: int|
            0 <= j < served(routes).len() ==> exists|k: int|
                0 <= k < routes.len() && route_segments(routes[k].1) is Some && #[trigger] served(routes)[j]
                    == (routes[k].0, routes[k].1, param_names(route_segments(routes[k].1)->0)),
    decreases routes.len(),
{
    if routes.len() > 0 {
        let init = routes.drop_last();
        lemma_served_routes(init);
        let rest = served(init);
        let f = served(routes);
        let last = routes.last();
        assert(routes[routes.len() - 1] == last);
        assert forall|k: int|
            #![trigger routes[k]]
            0 <= k < routes.len() && route_segments(routes[k].1) is Some && (routes[k].0 == seq![
                'D',
                'E',
                'L',
                'E',
                'T',
                'E',
            ] || routes[k].0 == seq!['G', 'E', 'T'] || routes[k].0 == seq!['P', 'A', 'T', 'C', 'H']
                || routes[k].0 == seq!['P', 'O', 'S', 'T'] || routes[k].0 == seq!['P', 'U', 'T'])
                implies f.contains((routes[k].0, routes[k].1, param_names(route_segments(routes[k].1)->0))) by {
            let e = (routes[k].0, routes[k].1, param_names(route_segments(routes[k].1)->0));
            if k < routes.len() - 1 {
                assert(init[k] == routes[k]);
                assert(rest.contains(e));
                let q = choose|q: int| 0 <= q < rest.len() && rest[q] == e;
                assert(f[q] == rest[q]);
            } else {
                assert(is_routable(routes[k].0));
                assert(f[f.len() - 1] == e);
            }
        }
        assert forall|j: int| 0 <= j < f.len() implies exists|k: int|
            0 <= k < routes.len() && route_segments(routes[k].1) is Some && #[trigger] f[j]
                == (routes[k].0, routes[k].1, param_names(route_segments(routes[k].1)->0)) by {
            if j < rest.len() {
                assert(f[j] == rest[j]);
                let k = choose|k: int|
                    0 <= k < init.len() && route_segments(init[k].1) is Some && #[trigger] rest[j]
                        == (init[k].0, init[k].1, param_names(route_segments(init[k].1)->0));
                assert(routes[k] == init[k]);
            } else {
                assert(f[j] == (last.0, last.1, param_names(route_segments(last.1)->0)));
            }
        }
    }
}

/// The server routes requests of the methods `DELETE`, `GET`, `PATCH`,
/// `POST` and `PUT`, and of no other.
pub proof fn lemma_routable_methods(name: Seq<char>)
    ensures
        is_routable(name) <==> (name == seq!['D', 'E', 'L', 'E', 'T', 'E'] || name == seq!['G', 'E', 'T']
            || name == seq!['P', 'A', 'T', 'C', 'H'] || name == seq!['P', 'O', 'S', 'T'] || name == seq![
            'P',
            'U',
            'T',
        ]),
{
}

/// A single registered route is served, with the names of its parameters,
/// exactly when its specification parses and its method is routable.
pub proof fn lemma_served_one_route(m: Seq<char>, r: Seq<char>)
    ensures
        served(seq![(m, r)]) == if route_segments(r) is Some && is_routable(m) {
            seq![(m, r, param_names(route_segments(r)->0))]
        } else {
            Seq::empty()
        },
{
    let e = Seq::<(Seq<char>, Seq<char>)>::empty();
    assert(seq![(m, r)].drop_last() =~= e);
    assert(seq![(m, r)].last() == (m, r));
    assert(served(e) == Seq::<(Seq<char>, Seq<char>, Seq<Seq<char>>)>::empty());
    if route_segments(r) is Some && is_routable(m) {
        assert(Seq::<(Seq<char>, Seq<char>, Seq<Seq<char>>)>::empty().push(
            (m, r, param_names(route_segments(r)->0)),
        ) =~= seq![(m, r, param_names(route_segments(r)->0))]);
    }
}

/// The routes served keep the order of registration: serving one list of
/// routes after another gives the routes served of the first, then those
/// of the second.
pub proof fn lemma_served_concat(a: Seq<(Seq<char>, Seq<char>)>, b: Seq<(Seq<char>, Seq<char>)>)
    ensures
        served(a + b) == served(a) + served(b),
    decreases b.len(),
{
    if b.len() == 0 {
        assert(a + b =~= a);
        assert(served(a) + served(b) =~= served(a));
    } else {
        lemma_served_concat(a, b.drop_last());
        assert((a + b).drop_last() =~= a + b.drop_last());
        assert((a + b).last() == b.last());
        let sa = served(a);
        let sb0 = served(b.drop_last());
        let (m, r) = b.last();
        if route_segments(r) is Some && is_routable(m) {
            assert((sa + sb0).push((m, r, param_names(route_segments(r)->0))) =~= sa + sb0.push(
                (m, r, param_names(route_segments(r)->0)),
            ));
        }
    }
}

/// The view of registered routes.
pub open spec fn routes_view(routes: Seq<(HttpMethod, String)>) -> Seq<(Seq<char>, Seq<char>)> {
    routes.map_values(|e: (HttpMethod, String)| (e.0.name@, e.1@))
}

/// The names of the parameter segments, in order.
fn names_of(segments: &Vec<Option<String>>) -> (r: Vec<String>)
    ensures
        r@.map_values(|p: String| p@) == param_names(options_view(segments@)),
{
    let mut r: Vec<String> = Vec::new();
    let mut i: usize = 0;
    while i < segments.len()
        invariant
            i <= segments@.len(),
            r@.map_values(|p: String| p@) == param_names(options_view(segments@).subrange(0, i as int)),
        decreases segments@.len() - i,
    {
        let ghost before = r@;
        let ghost prefix = options_view(segments@).subrange(0, i + 1);
        assert(prefix.drop_last() =~= options_view(segments@).subrange(0, i as int));
        assert(prefix.last() == options_view(segments@)[i as int]);
        match &segments[i] {
            Some(n) => {
                r.push(n.clone());
                assert(r@.map_values(|p: String| p@) =~= before.map_values(|p: String| p@).push(n@));
            },
            None => {},
        }
        i = i + 1;
    }
    assert(options_view(segments@).subrange(0, segments@.len() as int) =~= options_view(segments@));
    r
}

/// The routes a server serves for the registered `(method, route)` pairs:
/// a route whose specification is invalid is skipped, and only `DELETE`,
/// `GET`, `PATCH`, `POST` and `PUT` routes are served.
pub fn server_routes(routes: &Vec<(HttpMethod, String)>) -> (r: Vec<ServedRoute>)
    ensures
        r@.map_values(|s: ServedRoute| served_view(s)) == served(routes_view(routes@)),
{
    let mut r: Vec<ServedRoute> = Vec::new();
    let mut i: usize = 0;
    while i < routes.len()
        invariant
            i <= routes@.len(),
            r@.map_values(|s: ServedRoute| served_view(s)) == served(routes_view(routes@).subrange(0, i as int)),
        decreases routes@.len() - i,
    {
        let ghost before = r@;
        let ghost prefix = routes_view(routes@).subrange(0, i + 1);
        assert(prefix.drop_last() =~= routes_view(routes@).subrange(0, i as int));
        assert(prefix.last() == (routes@[i as int].0.name@, routes@[i as int].1@));
        let (method, route) = (&routes[i].0, &routes[i].1);
        match parse_route(route.as_str()) {
            Some(segments) => {
                if routable(method) {
                    let params = names_of(&segments);
                    let s = ServedRoute {
                        method: HttpMethod { name: method.name.clone() },
                        route: route.clone(),
                        params,
                    };
                    r.push(s);
                    assert(r@.map_values(|s: ServedRoute| served_view(s)) =~= before.map_values(
                        |s: ServedRoute| served_view(s),
                    ).push((method.name@, route@, param_names(options_view(segments@)))));
                }
            },
            None => {},
        }
        i = i + 1;
    }
    assert(routes_view(routes@).subrange(0, routes@.len() as int) =~= routes_view(routes@));
    r
}

/// The parameters of a request: for each parameter of the route, in order,
/// the value the router captured for it, where it captured one.
pub open spec fn request_params(names: Seq<Seq<char>>, captured: Seq<(Seq<char>, Seq<char>)>) -> Seq<
    (Seq<char>, Seq<char>),
>
    decreases names.len(),
{
    if names.len() == 0 {
        Seq::empty()
    } else {
        let rest = request_params(names.drop_last(), captured);
        match value_of(captured, names.last()) {
            Some(v) => rest.push((names.last(), v)),
            None => rest,
        }
    }
}

/// The parameters a request gives its track: each parameter of the route
/// with the value the router captured for it, those without a value left
/// out.
pub fn request_parameters(params: &Vec<String>, captured: &StringMap) -> (r: StringMap)
    ensures
        r.view() == request_params(params@.map_values(|p: String| p@), captured.view()),
{
    let ghost names = params@.map_values(|p: String| p@);
    let mut entries: Vec<(String, String)> = Vec::new();
    let mut i: usize = 0;
    while i < params.len()
        invariant
            i <= params@.len(),
            names == params@.map_values(|p: String| p@),
            pairs_view(entries@) == request_params(names.subrange(0, i as int), captured.view()),
        decreases params@.len() - i,
    {
        let ghost before = entries@;
        assert(names.subrange(0, i + 1).drop_last() =~= names.subrange(0, i as int));
        assert(names.subrange(0, i + 1).last() == params@[i as int]@);
        match captured.get(params[i].as_str()) {
            Some(v) => {
                entries.push((params[i].clone(), v.clone()));
                assert(pairs_view(entries@) =~= pairs_view(before).push((params@[i as int]@, v@)));
            },
            None => {},
        }
        i = i + 1;
    }
    assert(names.subrange(0, params@.len() as int) =~= names);
    StringMap { entries }
}

/// The context of the track of an incoming request: the connection's
/// identifier, the route the request took, its path, the parameters of the
/// route and the method.
pub struct HttpRequest {
    pub id: u128,
    pub route: String,
    pub path: String,
    pub parameters: StringMap,
    pub method: HttpMethod,
}

/// The context of the track of a request of `method` on `path`, taking the
/// served `route` whose parameters are `params`, given what the router
/// captured.
pub fn http_request(
    id: u128,
    route: String,
    path: String,
    params: &Vec<String>,
    captured: &StringMap,
    method: &HttpMethod,
) -> (r: HttpRequest)
    ensures
        r.id == id,
        r.route == route,
        r.path == path,
        r.parameters.view() == request_params(params@.map_values(|p: String| p@), captured.view()),
        r.method.name@ == method.name@,
{
    HttpRequest {
        id,
        route,
        path,
        parameters: request_parameters(params, captured),
        method: HttpMethod { name: method.name.clone() },
    }
}

/// What an incoming request gives its track: `failure` with the message
/// where its body could not be read; else `started`, its headers and its
/// body as data.
pub struct IncomingReport {
    pub failure: Option<String>,
    pub started: bool,
    pub headers: Option<StringMap>,
    pub data: Option<Vec<u8>>,
}

/// What an incoming request with received `headers` gives its track, once
/// its body has been read (or failed to be).
pub fn incoming_report(body: Result<Vec<u8>, String>, headers: StringMap) -> (r: IncomingReport)
    ensures
        r.started <==> body is Ok,
        r.failure is Some <==> body is Err,
        match body {
            Ok(content) => r.headers == Some(headers) && r.data == Some(content),
            Err(m) => r.failure == Some(m) && r.headers is None && r.data is None,
        },
{
    match body {
        Ok(content) => IncomingReport {
            failure: None,
            started: true,
            headers: Some(headers),
            data: Some(content),
        },
        Err(m) => IncomingReport { failure: Some(m), started: false, headers: None, data: None },
    }
}

/// `http-mel/` followed by the package version: the name the server gives
/// in its `Server` header and the client in its `User-Agent` header.
pub open spec fn product_name(version: Seq<char>) -> Seq<char> {
    seq!['h', 't', 't', 'p', '-', 'm', 'e', 'l', '/'] + version
}

/// `Server`.
pub open spec fn server_header() -> Seq<char> {
    seq!['S', 'e', 'r', 'v', 'e', 'r']
}

/// The product name for the package version `version`.
pub fn product(version: &str) -> (r: String)
    ensures
        r@ == product_name(version@),
{
    proof {
        reveal_strlit("http-mel/");
    }
    let mut r = "http-mel/".to_string();
    r.append(version);
    assert(r@ =~= product_name(version@));
    r
}

/// What the server answers a request: a status, the headers to set in
/// order (a later one of the same name replacing an earlier one), and
/// whether the track's data is streamed as the body.
pub struct ResponsePlan {
    pub status: HttpStatus,
    pub headers: Vec<(String, String)>,
    pub body: bool,
}

/// The answer to a request once its track gave, or did not give, a status
/// and headers: with both, that status, the `Server` header naming the
/// package at `version`, then the valid headers of the track, and the
/// track's data as body; without, `500 Internal Server Error` and nothing
/// else.
pub fn response_plan(status: Option<HttpStatus>, headers: Option<StringMap>, version: &str) -> (r: ResponsePlan)
    ensures
        match (status, headers) {
            (Some(s), Some(h)) => r.status == s && r.body && pairs_view(r.headers@) == seq![
                (server_header(), product_name(version@)),
            ] + sendable(h.view()),
            _ => r.status.code == 500 && r.headers@.len() == 0 && !r.body,
        },
{
    match (status, headers) {
        (Some(s), Some(h)) => {
            proof {
                reveal_strlit("Server");
            }
            let name = "Server".to_string();
            assert(name@ =~= server_header());
            let mut all: Vec<(String, String)> = Vec::new();
            all.push((name, product(version)));
            let valid = outgoing_headers(&h);
            let mut i: usize = 0;
            while i < valid.len()
                invariant
                    i <= valid@.len(),
                    pairs_view(all@) == seq![(server_header(), product_name(version@))] + pairs_view(
                        valid@,
                    ).subrange(0, i as int),
                decreases valid@.len() - i,
            {
                let ghost a0 = all@;
                all.push((valid[i].0.clone(), valid[i].1.clone()));
                assert(pairs_view(all@) =~= pairs_view(a0).push((valid@[i as int].0@, valid@[i as int].1@)));
                assert(pairs_view(valid@).subrange(0, i + 1) =~= pairs_view(valid@).subrange(0, i as int).push((valid@[i as int].0@, valid@[i as int].1@)));
                i = i + 1;
            }
            assert(pairs_view(valid@).subrange(0, valid@.len() as int) =~= pairs_view(valid@));
            ResponsePlan { status: s, headers: all, body: true }
        },
        _ => ResponsePlan { status: HttpStatus { code: 500 }, headers: Vec::new(), body: false },
    }
}

/// What the server keeps for the connections waiting for their response,
/// each under its identifier.
pub struct Pending<T> {
    pub entries: Vec<(u128, T)>,
}

/// The identifiers of `entries` are all different.
pub open spec fn distinct_ids<T>(entries: Seq<(u128, T)>) -> bool {
    forall|i: int, j: int|
        0 <= i < entries.len() && 0 <= j < entries.len() && i != j ==> entries[i].0 != entries[j].0
}

/// Whether `id` is kept in `entries`.
pub open spec fn holds_id<T>(entries: Seq<(u128, T)>, id: u128) -> bool {
    exists|i: int| 0 <= i < entries.len() && entries[i].0 == id
}

/// What `entries` keep, by identifier.
pub open spec fn kept<T>(entries: Seq<(u128, T)>) -> Map<u128, T> {
    Map::new(
        |id: u128| holds_id(entries, id),
        |id: u128| entries[choose|i: int| 0 <= i < entries.len() && entries[i].0 == id].1,
    )
}

proof fn lemma_kept_at<T>(entries: Seq<(u128, T)>, i: int)
    requires
        distinct_ids(entries),
        0 <= i < entries.len(),
    ensures
        kept(entries).contains_key(entries[i].0),
        kept(entries)[entries[i].0] == entries[i].1,
{
    assert(holds_id(entries, entries[i].0));
    let j = choose|j: int| 0 <= j < entries.len() && entries[j].0 == entries[i].0;
    assert(j == i);
}

proof fn lemma_kept_push<T>(entries: Seq<(u128, T)>, id: u128, value: T)
    requires
        distinct_ids(entries),
        !holds_id(entries, id),
    ensures
        distinct_ids(entries.push((id, value))),
        kept(entries.push((id, value))) == kept(entries).insert(id, value),
{
    let e = entries.push((id, value));
    assert forall|i: int, j: int| 0 <= i < e.len() && 0 <= j < e.len() && i != j implies e[i].0 != e[j].0 by {
        if i < entries.len() && j < entries.len() {
            assert(e[i] == entries[i] && e[j] == entries[j]);
        } else if i < entries.len() {
            assert(e[i] == entries[i]);
        } else {
            assert(e[j] == entries[j]);
        }
    }
    assert forall|k: u128| #[trigger] kept(e).contains_key(k) == kept(entries).insert(id, value).contains_key(k) by {
        if holds_id(entries, k) {
            let j = choose|j: int| 0 <= j < entries.len() && entries[j].0 == k;
            assert(e[j] == entries[j]);
        }
        if k == id {
            assert(e[entries.len() as int].0 == k);
        }
        if holds_id(e, k) && k != id {
            let j = choose|j: int| 0 <= j < e.len() && e[j].0 == k;
            assert(e[j] == entries[j]);
        }
    }
    assert forall|k: u128| #[trigger] kept(e).contains_key(k) implies kept(e)[k] == kept(entries).insert(id, value)[k] by {
        let j = choose|j: int| 0 <= j < e.len() && e[j].0 == k;
        lemma_kept_at(e, j);
        if k != id {
            assert(e[j] == entries[j]);
            lemma_kept_at(entries, j);
        }
    }
    assert(kept(e) =~= kept(entries).insert(id, value));
}

proof fn lemma_kept_update<T>(entries: Seq<(u128, T)>, i: int, value: T)
    requires
        distinct_ids(entries),
        0 <= i < entries.len(),
    ensures
        distinct_ids(entries.update(i, (entries[i].0, value))),
        kept(entries.update(i, (entries[i].0, value))) == kept(entries).insert(entries[i].0, value),
{
    let id = entries[i].0;
    let e = entries.update(i, (id, value));
    assert forall|a: int, b: int| 0 <= a < e.len() && 0 <= b < e.len() && a != b implies e[a].0 != e[b].0 by {
        assert(e[a].0 == entries[a].0 && e[b].0 == entries[b].0);
    }
    assert forall|k: u128| #[trigger] kept(e).contains_key(k) == kept(entries).insert(id, value).contains_key(k) by {
        if holds_id(entries, k) {
            let j = choose|j: int| 0 <= j < entries.len() && entries[j].0 == k;
            assert(e[j].0 == k);
        }
        if holds_id(e, k) {
            let j = choose|j: int| 0 <= j < e.len() && e[j].0 == k;
            assert(entries[j].0 == k);
        }
        assert(e[i].0 == id);
    }
    assert forall|k: u128| #[trigger] kept(e).contains_key(k) implies kept(e)[k] == kept(entries).insert(id, value)[k] by {
        let j = choose|j: int| 0 <= j < e.len() && e[j].0 == k;
        lemma_kept_at(e, j);
        if j != i {
            lemma_kept_at(entries, j);
        }
    }
    assert(kept(e) =~= kept(entries).insert(id, value));
}

proof fn lemma_kept_remove<T>(entries: Seq<(u128, T)>, i: int)
    requires
        distinct_ids(entries),
        0 <= i < entries.len(),
    ensures
        distinct_ids(entries.remove(i)),
        kept(entries).contains_key(entries[i].0),
        kept(entries)[entries[i].0] == entries[i].1,
        kept(entries.remove(i)) == kept(entries).remove(entries[i].0),
{
    let id = entries[i].0;
    let e = entries.remove(i);
    lemma_kept_at(entries, i);
    assert forall|k: int| 0 <= k < e.len() implies #[trigger] e[k] == (if k < i { entries[k] } else { entries[k + 1] }) by {}
    assert forall|a: int, b: int| 0 <= a < e.len() && 0 <= b < e.len() && a != b implies e[a].0 != e[b].0 by {
        assert(e[a] == (if a < i { entries[a] } else { entries[a + 1] }));
        assert(e[b] == (if b < i { entries[b] } else { entries[b + 1] }));
    }
    assert forall|k: u128| #[trigger] kept(e).contains_key(k) == kept(entries).remove(id).contains_key(k) by {
        if holds_id(entries, k) && k != id {
            let j = choose|j: int| 0 <= j < entries.len() && entries[j].0 == k;
            if j < i {
                assert(e[j] == entries[j]);
            } else {
                assert(e[j - 1] == entries[j]);
            }
        }
        if holds_id(e, k) {
            let j = choose|j: int| 0 <= j < e.len() && e[j].0 == k;
            if j < i {
                assert(e[j] == entries[j]);
            } else {
                assert(e[j] == entries[j + 1]);
            }
        }
    }
    assert forall|k: u128| #[trigger] kept(e).contains_key(k) implies kept(e)[k] == kept(entries).remove(id)[k] by {
        let j = choose|j: int| 0 <= j < e.len() && e[j].0 == k;
        lemma_kept_at(e, j);
        if j < i {
            assert(e[j] == entries[j]);
            lemma_kept_at(entries, j);
        } else {
            assert(e[j] == entries[j + 1]);
            lemma_kept_at(entries, j + 1);
        }
    }
    assert(kept(e) =~= kept(entries).remove(id));
}

impl<T> Pending<T> {
    /// The identifiers are all different.
    pub open spec fn wf(&self) -> bool {
        distinct_ids(self.entries@)
    }

    /// What is kept, by identifier.
    pub open spec fn view(&self) -> Map<u128, T> {
        kept(self.entries@)
    }

    /// Nothing is kept.
    pub fn new() -> (r: Pending<T>)
        ensures
            r.wf(),
            r@ == Map::<u128, T>::empty(),
    {
        let r = Pending { entries: Vec::new() };
        assert(r@ =~= Map::<u128, T>::empty());
        r
    }

    /// The position of `id`, if it is kept.
    fn position(&self, id: u128) -> (r: Option<usize>)
        ensures
            match r {
                Some(i) => i < self.entries@.len() && self.entries@[i as int].0 == id,
                None => !holds_id(self.entries@, id),
            },
    {
        let mut i: usize = 0;
        while i < self.entries.len()
            invariant
                i <= self.entries@.len(),
                forall|k: int| 0 <= k < i ==> self.entries@[k].0 != id,
            decreases self.entries@.len() - i,
        {
            if self.entries[i].0 == id {
                return Some(i);
            }
            i = i + 1;
        }
        None
    }

    /// Keeps `value` under `id`, in place of what was kept there.
    pub fn insert(&mut self, id: u128, value: T)
        requires
            old(self).wf(),
        ensures
            final(self).wf(),
            final(self)@ == old(self)@.insert(id, value),
    {
        match self.position(id) {
            Some(i) => {
                proof {
                    lemma_kept_update(self.entries@, i as int, value);
                }
                self.entries.set(i, (id, value));
            },
            None => {
                proof {
                    lemma_kept_push(self.entries@, id, value);
                }
                self.entries.push((id, value));
            },
        }
    }

    /// Takes out what is kept under `id`, if anything.
    pub fn remove(&mut self, id: u128) -> (r: Option<T>)
        requires
            old(self).wf(),
        ensures
            final(self).wf(),
            r == (if old(self)@.contains_key(id) { Some(old(self)@[id]) } else { None }),
            final(self)@ == old(self)@.remove(id),
    {
        match self.position(id) {
            Some(i) => {
                proof {
                    lemma_kept_remove(self.entries@, i as int);
                }
                let (_, value) = self.entries.remove(i);
                Some(value)
            },
            None => {
                proof {
                    assert(self@ =~= old(self)@.remove(id));
                }
                None
            },
        }
    }
}

/// What the treatment `outgoing` takes for the connection `id`: it takes
/// the connection out of the status, headers and body registries, and
/// answers only where all three held it.
pub fn outgoing<S, H, O>(
    statuses: &mut Pending<S>,
    headers: &mut Pending<H>,
    bodies: &mut Pending<O>,
    id: u128,
) -> (r: Option<(S, H, O)>)
    requires
        old(statuses).wf(),
        old(headers).wf(),
        old(bodies).wf(),
    ensures
        final(statuses).wf() && final(headers).wf() && final(bodies).wf(),
        final(statuses)@ == old(statuses)@.remove(id),
        final(headers)@ == old(headers)@.remove(id),
        final(bodies)@ == old(bodies)@.remove(id),
        r is Some <==> old(statuses)@.contains_key(id) && old(headers)@.contains_key(id)
            && old(bodies)@.contains_key(id),
        r matches Some(t) ==> t.0 == old(statuses)@[id] && t.1 == old(headers)@[id] && t.2 == old(
            bodies,
        )@[id],
{
    let s = statuses.remove(id);
    let h = headers.remove(id);
    let o = bodies.remove(id);
    match (s, h, o) {
        (Some(s), Some(h), Some(o)) => Some((s, h, o)),
        _ => None,
    }
}

/// A server's state: the routes registered on it, and, for each connection
/// waiting for its response, where its status, headers and body go.
pub struct HttpServer<S, H, O> {
    pub routes: Vec<(HttpMethod, String)>,
    pub statuses: Pending<S>,
    pub headers: Pending<H>,
    pub outgoing: Pending<O>,
}

impl<S, H, O> HttpServer<S, H, O> {
    /// The three registries are well formed.
    pub open spec fn wf(&self) -> bool {
        self.statuses.wf() && self.headers.wf() && self.outgoing.wf()
    }

    /// A server with no route and no connection.
    pub fn new() -> (r: HttpServer<S, H, O>)
        ensures
            r.wf(),
            r.routes@.len() == 0,
            r.statuses@ == Map::<u128, S>::empty(),
            r.headers@ == Map::<u128, H>::empty(),
            r.outgoing@ == Map::<u128, O>::empty(),
    {
        HttpServer { routes: Vec::new(), statuses: Pending::new(), headers: Pending::new(), outgoing: Pending::new() }
    }

    /// Registers the route of an `incoming` source with its method; other
    /// sources register nothing.
    pub fn invoke_source(&mut self, source: &str, method: HttpMethod, route: String)
        ensures
            final(self).routes@ == if source@ == seq!['i', 'n', 'c', 'o', 'm', 'i', 'n', 'g'] {
                old(self).routes@.push((method, route))
            } else {
                old(self).routes@
            },
            final(self).statuses == old(self).statuses,
            final(self).headers == old(self).headers,
            final(self).outgoing == old(self).outgoing,
    {
        proof {
            reveal_strlit("incoming");
            assert("incoming"@ =~= seq!['i', 'n', 'c', 'o', 'm', 'i', 'n', 'g']);
        }
        if same_text(source, "incoming") {
            self.routes.push((method, route));
        }
    }

    /// Keeps where the response of the new connection `id` goes.
    pub fn connect(&mut self, id: u128, status: S, headers: H, body: O)
        requires
            old(self).wf(),
        ensures
            final(self).wf(),
            final(self).routes == old(self).routes,
            final(self).statuses@ == old(self).statuses@.insert(id, status),
            final(self).headers@ == old(self).headers@.insert(id, headers),
            final(self).outgoing@ == old(self).outgoing@.insert(id, body),
    {
        self.statuses.insert(id, status);
        self.headers.insert(id, headers);
        self.outgoing.insert(id, body);
    }

    /// Takes out where the response of the connection `id` goes, for the
    /// treatment `outgoing`: only where all three are kept.
    pub fn take(&mut self, id: u128) -> (r: Option<(S, H, O)>)
        requires
            old(self).wf(),
        ensures
            final(self).wf(),
            final(self).routes == old(self).routes,
            final(self).statuses@ == old(self).statuses@.remove(id),
            final(self).headers@ == old(self).headers@.remove(id),
            final(self).outgoing@ == old(self).outgoing@.remove(id),
            r is Some <==> old(self).statuses@.contains_key(id) && old(self).headers@.contains_key(id)
                && old(self).outgoing@.contains_key(id),
            r matches Some(t) ==> t.0 == old(self).statuses@[id] && t.1 == old(self).headers@[id]
                && t.2 == old(self).outgoing@[id],
    {
        outgoing(&mut self.statuses, &mut self.headers, &mut self.outgoing, id)
    }
}

/// What is kept under an identifier is what was last kept there: taking it
/// out right after keeping `value` gives `value` back, and leaves the other
/// connections as they were.
pub proof fn lemma_remove_after_insert<T>(kept: Map<u128, T>, id: u128, value: T)
    ensures
        kept.insert(id, value).contains_key(id),
        kept.insert(id, value)[id] == value,
        kept.insert(id, value).remove(id) == kept.remove(id),
{
    assert(kept.insert(id, value).remove(id) =~= kept.remove(id));
}

} // verus!
