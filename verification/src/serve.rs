//! What the server answers: routes, the checks on a request, and the steps from
//! a request to its reply.
//!
//! Handling a request alternates between decisions and outside work (reading a
//! body, running a search). A [`Stage`] names the work that comes next; what
//! came of it is handed back, and gives the next stage.
//!
//! Floating-point values are held as their bit patterns.

use crate::config::{Params, SearchDefaults, ServeConfig};
use crate::inputs::{metric_name, name_of_metric};
use crate::loader::LoadedIndex;
use crate::text::{decimal, push_decimal, same_text};
use diskann_vector::distance::Metric;
use vstd::prelude::*;

verus! {

/// How many bytes the body of a request may have; larger bodies are rejected.
pub const MAX_BODY_BYTES: u64 = 16 * 1024 * 1024;

/// `POST /search`: one query vector, and the parameters that the request gives.
#[derive(Debug)]
pub struct SearchRequest {
    pub query: Vec<u32>,
    pub k: Option<u32>,
    pub search_list: Option<u32>,
    pub beam_width: Option<usize>,
    pub flat: Option<bool>,
}

/// `POST /search/batch`: many query vectors, and the parameters for all of them.
#[derive(Debug)]
pub struct BatchRequest {
    pub queries: Vec<Vec<u32>>,
    pub k: Option<u32>,
    pub search_list: Option<u32>,
    pub beam_width: Option<usize>,
    pub flat: Option<bool>,
}

/// One neighbour that a search found.
#[derive(Debug, Clone, Copy, PartialEq, Eq, Structural)]
pub struct Neighbor {
    pub id: u32,
    /// The bits of its distance, an `f32`.
    pub distance: u32,
}

/// What one search found.
#[derive(Debug, PartialEq, Eq)]
pub struct SearchResponse {
    pub neighbors: Vec<Neighbor>,
    /// How many distances were computed.
    pub comparisons: u32,
    /// The bits of the milliseconds that the search took, an `f64`.
    pub search_ms: u64,
}

/// What the searches of a batch found, one after the other.
#[derive(Debug, PartialEq, Eq)]
pub struct BatchResponse {
    pub results: Vec<SearchResponse>,
}

/// The server's health.
#[derive(Debug)]
pub struct Health {
    pub status: &'static str,
}

/// The index that is served.
#[derive(Debug)]
pub struct InfoResponse {
    pub num_points: usize,
    pub dim: usize,
    pub metric: &'static str,
    pub defaults: SearchDefaults,
}

/// An error, in words.
#[derive(Debug, PartialEq, Eq)]
pub struct ErrorBody {
    pub error: String,
}

/// The body of a reply.
#[derive(Debug)]
pub enum Body {
    Health(Health),
    Info(InfoResponse),
    Search(SearchResponse),
    Batch(BatchResponse),
    Error(ErrorBody),
}

/// A reply: an HTTP status and a body.
#[derive(Debug)]
pub struct Reply {
    pub status: u16,
    pub body: Body,
}

impl Reply {
    /// Whether this is the error `message` under `status`.
    pub open spec fn is_error(self, status: u16, message: Seq<char>) -> bool {
        self.status == status && (self.body matches Body::Error(e) && e.error@ == message)
    }

    /// Whether this is a success whose body is `out`.
    pub open spec fn is_found(self, out: SearchResponse) -> bool {
        self.status == 200 && self.body == Body::Search(out)
    }

    /// Whether this is a success whose body is the list `results`.
    pub open spec fn is_batch(self, results: Seq<SearchResponse>) -> bool {
        self.status == 200 && (self.body matches Body::Batch(b) && b.results@ == results)
    }
}

/// The error `msg` under `status`.
pub fn err(status: u16, msg: String) -> (reply: Reply)
    ensures
        reply.is_error(status, msg@),
{
    Reply { status, body: Body::Error(ErrorBody { error: msg }) }
}

impl SearchResponse {
    /// The response for `results`, each a vertex and the bits of its distance,
    /// in the order in which the search gave them.
    pub fn from_results(results: &Vec<(u32, u32)>, comparisons: u32, search_ms: u64) -> (r: SearchResponse)
        ensures
            r.neighbors@ == results@.map_values(
                |n: (u32, u32)| Neighbor { id: n.0, distance: n.1 },
            ),
            r.comparisons == comparisons,
            r.search_ms == search_ms,
    {
        let mut neighbors: Vec<Neighbor> = Vec::new();
        let mut i: usize = 0;
        while i < results.len()
            invariant
                i <= results.len(),
                neighbors@ == results@.take(i as int).map_values(
                    |n: (u32, u32)| Neighbor { id: n.0, distance: n.1 },
                ),
            decreases results.len() - i,
        {
            let n = results[i];
            neighbors.push(Neighbor { id: n.0, distance: n.1 });
            i += 1;
            assert(results@.take(i as int) =~= results@.take(i - 1).push(n));
        }
        assert(results@.take(i as int) =~= results@);
        SearchResponse { neighbors, comparisons, search_ms }
    }
}

/// The HTTP method of a request, as far as it matters here.
#[derive(Debug, Clone, Copy, PartialEq, Eq, Structural)]
pub enum Method {
    Get,
    Post,
    Other,
}

/// The two routes that take a body.
#[derive(Debug, Clone, Copy, PartialEq, Eq, Structural)]
pub enum Endpoint {
    Search,
    Batch,
}

/// Where a request leads.
#[derive(Debug, Clone, Copy, PartialEq, Eq, Structural)]
pub enum Route {
    Health,
    Info,
    Search,
    Batch,
    NotFound,
}

/// Where a request leads.
pub open spec fn route_of(method: Method, url: Seq<char>) -> Route {
    if method == Method::Get && (url == "/healthz"@ || url == "/readyz"@) {
        Route::Health
    } else if method == Method::Get && url == "/info"@ {
        Route::Info
    } else if method == Method::Post && url == "/search"@ {
        Route::Search
    } else if method == Method::Post && url == "/search/batch"@ {
        Route::Batch
    } else {
        Route::NotFound
    }
}

/// Where a request leads.
pub fn route(method: Method, url: &str) -> (r: Route)
    ensures
        r == route_of(method, url@),
{
    match method {
        Method::Get => {
            if same_text(url, "/healthz") || same_text(url, "/readyz") {
                Route::Health
            } else if same_text(url, "/info") {
                Route::Info
            } else {
                Route::NotFound
            }
        },
        Method::Post => {
            if same_text(url, "/search") {
                Route::Search
            } else if same_text(url, "/search/batch") {
                Route::Batch
            } else {
                Route::NotFound
            }
        },
        Method::Other => Route::NotFound,
    }
}

/// What the server knows of the index, and its defaults.
#[derive(Debug, Clone, Copy)]
pub struct Ctx {
    pub dims: usize,
    pub num_points: usize,
    pub metric: Metric,
    pub defaults: SearchDefaults,
}

/// One search to run for `POST /search`.
#[derive(Debug)]
pub struct SearchJob {
    pub query: Vec<u32>,
    pub params: Params,
}

/// A batch with a search to run: that of the first query without a result.
#[derive(Debug)]
pub struct BatchRun {
    dims: usize,
    queries: Vec<Vec<u32>>,
    params: Params,
    results: Vec<SearchResponse>,
}

/// The work that comes next for a request.
#[derive(Debug)]
pub enum Stage {
    /// Read the body, no more than one byte past [`MAX_BODY_BYTES`], put it
    /// through [`checked_body`], decode it as the request that the endpoint
    /// takes, and go on with [`Ctx::body_read`].
    ReadBody(Endpoint),
    /// Run the search, and answer with [`search_reply`].
    Search(SearchJob),
    /// Run the search of the batch's next query, and go on with
    /// [`BatchRun::searched`].
    Batch(BatchRun),
    /// Send the reply.
    Respond(Reply),
}

/// What came of a request's body.
#[derive(Debug)]
pub enum BodyEvent {
    /// It could not be read, for this reason.
    Unreadable(String),
    /// It could not be decoded, for this reason.
    Malformed(String),
    /// It is a search request.
    Search(SearchRequest),
    /// It is a batch request.
    Batch(BatchRequest),
}

impl Endpoint {
    /// Whether `event` can come of a body that was read for this route: a body
    /// is decoded as the request that the route takes.
    pub open spec fn gives(self, event: BodyEvent) -> bool {
        match event {
            BodyEvent::Unreadable(_) => true,
            BodyEvent::Malformed(_) => true,
            BodyEvent::Search(_) => self == Endpoint::Search,
            BodyEvent::Batch(_) => self == Endpoint::Batch,
        }
    }
}

/// The refusal of a query whose length is not the index's dimension.
pub open spec fn dim_message(len: nat, dims: nat) -> Seq<char> {
    "query dim "@ + decimal(len) + " != index dim "@ + decimal(dims)
}

/// The refusal of a batch's query whose length is not the index's dimension.
pub open spec fn batch_dim_message(i: nat, len: nat, dims: nat) -> Seq<char> {
    "query "@ + decimal(i) + " dim "@ + decimal(len) + " != index dim "@ + decimal(dims)
}

/// The refusal of a search list shorter than the number of neighbours.
pub open spec fn list_message(p: Params) -> Seq<char> {
    "search_list "@ + decimal(p.l as nat) + " must be >= k "@ + decimal(p.k as nat)
}

impl SearchRequest {
    /// The parameters of the request, completed with the defaults.
    pub open spec fn params(self, d: SearchDefaults) -> Params {
        d.completed(self.k, self.search_list, self.beam_width, self.flat)
    }
}

impl BatchRequest {
    /// The parameters of the request, completed with the defaults.
    pub open spec fn params(self, d: SearchDefaults) -> Params {
        d.completed(self.k, self.search_list, self.beam_width, self.flat)
    }
}

/// Whether `stage` is what comes next for a batch of `queries` of which the
/// first have given `results`: the reply when all have, else the refusal of the
/// next query or the search for it.
pub open spec fn batch_goes_on(
    dims: usize,
    queries: Seq<Vec<u32>>,
    params: Params,
    results: Seq<SearchResponse>,
    stage: Stage,
) -> bool {
    let i = results.len();
    if i >= queries.len() {
        stage matches Stage::Respond(reply) && reply.is_batch(results)
    } else if queries[i as int]@.len() != dims {
        stage matches Stage::Respond(reply) && reply.is_error(
            400,
            batch_dim_message(i, queries[i as int]@.len(), dims as nat),
        )
    } else {
        stage matches Stage::Batch(run) && run.dims() == dims && run.queries() == queries
            && run.params() == params && run.results() == results
    }
}

/// Whether `stage` is what comes next for `run` when its search gave `outcome`.
pub open spec fn batch_step(
    run: BatchRun,
    outcome: Result<SearchResponse, String>,
    stage: Stage,
) -> bool {
    match outcome {
        Ok(out) => batch_goes_on(
            run.dims(),
            run.queries(),
            run.params(),
            run.results().push(out),
            stage,
        ),
        Err(e) => stage matches Stage::Respond(reply) && reply.is_error(
            500,
            "query "@ + decimal(run.results().len()) + " failed: "@ + e@,
        ),
    }
}

/// Whether `stage` is the answer to a search request.
pub open spec fn search_begins(ctx: Ctx, r: SearchRequest, stage: Stage) -> bool {
    let p = r.params(ctx.defaults);
    if r.query@.len() != ctx.dims {
        stage matches Stage::Respond(reply) && reply.is_error(
            400,
            dim_message(r.query@.len(), ctx.dims as nat),
        )
    } else if p.l < p.k {
        stage matches Stage::Respond(reply) && reply.is_error(400, list_message(p))
    } else {
        stage == Stage::Search(SearchJob { query: r.query, params: p })
    }
}

/// Whether `stage` is the answer to a batch request.
pub open spec fn batch_begins(ctx: Ctx, r: BatchRequest, stage: Stage) -> bool {
    let p = r.params(ctx.defaults);
    if p.l < p.k {
        stage matches Stage::Respond(reply) && reply.is_error(400, list_message(p))
    } else {
        batch_goes_on(ctx.dims, r.queries@, p, Seq::empty(), stage)
    }
}

/// Whether `stage` is what comes next when a request's body gave `event`.
pub open spec fn body_goes_on(ctx: Ctx, event: BodyEvent, stage: Stage) -> bool {
    match event {
        BodyEvent::Unreadable(e) => stage matches Stage::Respond(reply) && reply.is_error(
            400,
            "read error: "@ + e@,
        ),
        BodyEvent::Malformed(e) => stage matches Stage::Respond(reply) && reply.is_error(
            400,
            "invalid JSON: "@ + e@,
        ),
        BodyEvent::Search(r) => search_begins(ctx, r, stage),
        BodyEvent::Batch(r) => batch_begins(ctx, r, stage),
    }
}

/// Whether `stage` is how a request begins.
pub open spec fn handle_begins(ctx: Ctx, method: Method, url: Seq<char>, stage: Stage) -> bool {
    match route_of(method, url) {
        Route::Health => stage matches Stage::Respond(reply) && reply.status == 200 && (
        reply.body matches Body::Health(h) && h.status@ == "ok"@),
        Route::Info => stage matches Stage::Respond(reply) && reply.status == 200 && (
        reply.body matches Body::Info(info) && ctx.is_info(info)),
        Route::Search => stage == Stage::ReadBody(Endpoint::Search),
        Route::Batch => stage == Stage::ReadBody(Endpoint::Batch),
        Route::NotFound => stage matches Stage::Respond(reply) && reply.is_error(
            404,
            "not found"@,
        ),
    }
}

/// Whether `reply` is the answer to a search that gave `outcome`.
pub open spec fn search_answers(outcome: Result<SearchResponse, String>, reply: Reply) -> bool {
    match outcome {
        Ok(out) => reply.is_found(out),
        Err(e) => reply.is_error(500, "search failed: "@ + e@),
    }
}

impl BatchRun {
    /// The dimension of the index.
    pub closed spec fn dims(self) -> usize {
        self.dims
    }

    /// The queries of the batch.
    pub closed spec fn queries(self) -> Seq<Vec<u32>> {
        self.queries@
    }

    /// The parameters of every search.
    pub closed spec fn params(self) -> Params {
        self.params
    }

    /// What the searches that were run have found.
    pub closed spec fn results(self) -> Seq<SearchResponse> {
        self.results@
    }

    /// A query is left, no query up to it has another length than the index's
    /// dimension, and the search list is long enough.
    #[verifier::type_invariant]
    spec fn wf(self) -> bool {
        &&& self.results@.len() < self.queries@.len()
        &&& forall|j: int|
            0 <= j <= self.results@.len() ==> (#[trigger] self.queries@[j])@.len() == self.dims
        &&& self.params.l >= self.params.k
    }

    /// The query to search for next.
    pub fn query(&self) -> (q: &Vec<u32>)
        ensures
            self.results().len() < self.queries().len(),
            *q == self.queries()[self.results().len() as int],
            q@.len() == self.dims(),
    {
        proof {
            use_type_invariant(self);
        }
        &self.queries[self.results.len()]
    }

    /// The parameters to search with.
    pub fn search_params(&self) -> (p: Params)
        ensures
            p == self.params(),
            p.l >= p.k,
    {
        proof {
            use_type_invariant(self);
        }
        self.params
    }

    /// Goes on with a batch of which the first queries have given `results`.
    fn go_on(
        dims: usize,
        queries: Vec<Vec<u32>>,
        params: Params,
        results: Vec<SearchResponse>,
    ) -> (stage: Stage)
        requires
            results@.len() <= queries@.len(),
            forall|j: int|
                0 <= j < results@.len() ==> (#[trigger] queries@[j])@.len() == dims,
            params.l >= params.k,
        ensures
            batch_goes_on(dims, queries@, params, results@, stage),
    {
        let i = results.len();
        if i == queries.len() {
            return Stage::Respond(
                Reply { status: 200, body: Body::Batch(BatchResponse { results }) },
            );
        }
        let len = queries[i].len();
        if len != dims {
            let mut msg = "query ".to_owned();
            push_decimal(&mut msg, i as u128);
            msg.append(" dim ");
            push_decimal(&mut msg, len as u128);
            msg.append(" != index dim ");
            push_decimal(&mut msg, dims as u128);
            return Stage::Respond(err(400, msg));
        }
        Stage::Batch(BatchRun { dims, queries, params, results })
    }

    /// Takes what the search of the next query gave, and goes on.
    pub fn searched(self, outcome: Result<SearchResponse, String>) -> (stage: Stage)
        ensures
            batch_step(self, outcome, stage),
    {
        proof {
            use_type_invariant(&self);
        }
        let BatchRun { dims, queries, params, results } = self;
        match outcome {
            Ok(out) => {
                let mut results = results;
                results.push(out);
                BatchRun::go_on(dims, queries, params, results)
            },
            Err(e) => {
                let mut msg = "query ".to_owned();
                push_decimal(&mut msg, results.len() as u128);
                msg.append(" failed: ");
                msg.append(e.as_str());
                Stage::Respond(err(500, msg))
            },
        }
    }
}

/// The answer to a search that gave `outcome`.
pub fn search_reply(outcome: Result<SearchResponse, String>) -> (reply: Reply)
    ensures
        search_answers(outcome, reply),
{
    match outcome {
        Ok(out) => Reply { status: 200, body: Body::Search(out) },
        Err(e) => {
            let mut msg = "search failed: ".to_owned();
            msg.append(e.as_str());
            err(500, msg)
        },
    }
}

/// The answer to a request whose body could not be read, for the reason `e`.
pub fn read_failed(e: &str) -> (reply: Reply)
    ensures
        reply.is_error(400, "read error: "@ + e@),
{
    let mut msg = "read error: ".to_owned();
    msg.append(e);
    err(400, msg)
}

/// The answer to a request whose body could not be decoded, for the reason `e`.
pub fn decode_failed(e: &str) -> (reply: Reply)
    ensures
        reply.is_error(400, "invalid JSON: "@ + e@),
{
    let mut msg = "invalid JSON: ".to_owned();
    msg.append(e);
    err(400, msg)
}

/// Lets a body of at most [`MAX_BODY_BYTES`] through, and rejects a larger one.
pub fn checked_body(body: Vec<u8>) -> (r: Result<Vec<u8>, BodyEvent>)
    ensures
        r is Ok <==> body@.len() <= MAX_BODY_BYTES,
        r matches Ok(b) ==> b == body,
        r matches Err(event) ==> event matches BodyEvent::Unreadable(e) && e@
            == "body is larger than "@ + decimal(MAX_BODY_BYTES as nat) + " bytes"@,
{
    if body.len() as u64 <= MAX_BODY_BYTES {
        return Ok(body);
    }
    let mut e = "body is larger than ".to_owned();
    push_decimal(&mut e, MAX_BODY_BYTES as u128);
    e.append(" bytes");
    Err(BodyEvent::Unreadable(e))
}

/// The refusal of a search list shorter than the number of neighbours.
fn list_refusal(p: Params) -> (reply: Reply)
    ensures
        reply.is_error(400, list_message(p)),
{
    let mut msg = "search_list ".to_owned();
    push_decimal(&mut msg, p.l as u128);
    msg.append(" must be >= k ");
    push_decimal(&mut msg, p.k as u128);
    err(400, msg)
}

impl Ctx {
    /// The context of serving `loaded` as `config` says.
    pub open spec fn serving(loaded: LoadedIndex, config: ServeConfig) -> Ctx {
        Ctx {
            dims: loaded.dims,
            num_points: loaded.num_points,
            metric: loaded.metric,
            defaults: config.defaults,
        }
    }

    /// The context of serving `loaded` as `config` says.
    pub fn new(loaded: &LoadedIndex, config: &ServeConfig) -> (ctx: Ctx)
        ensures
            ctx == Ctx::serving(*loaded, *config),
    {
        Ctx {
            dims: loaded.dims,
            num_points: loaded.num_points,
            metric: loaded.metric,
            defaults: config.defaults,
        }
    }

    /// Whether `info` describes this index.
    pub open spec fn is_info(self, info: InfoResponse) -> bool {
        &&& info.num_points == self.num_points
        &&& info.dim == self.dims
        &&& info.metric@ == name_of_metric(self.metric)
        &&& info.defaults == self.defaults
    }

    /// The index that is served.
    pub fn info(&self) -> (info: InfoResponse)
        ensures
            self.is_info(info),
    {
        InfoResponse {
            num_points: self.num_points,
            dim: self.dims,
            metric: metric_name(self.metric),
            defaults: self.defaults,
        }
    }

    /// Checks a search request: its query must have the index's dimension, and
    /// its search list must be at least as long as the number of neighbours.
    pub fn search(&self, r: SearchRequest) -> (stage: Stage)
        ensures
            search_begins(*self, r, stage),
    {
        let len = r.query.len();
        if len != self.dims {
            let mut msg = "query dim ".to_owned();
            push_decimal(&mut msg, len as u128);
            msg.append(" != index dim ");
            push_decimal(&mut msg, self.dims as u128);
            return Stage::Respond(err(400, msg));
        }
        let p = self.defaults.resolve(r.k, r.search_list, r.beam_width, r.flat);
        if p.l < p.k {
            return Stage::Respond(list_refusal(p));
        }
        Stage::Search(SearchJob { query: r.query, params: p })
    }

    /// Checks a batch request, and begins with its first query. The length of a
    /// query is checked when its turn comes.
    pub fn batch(&self, r: BatchRequest) -> (stage: Stage)
        ensures
            batch_begins(*self, r, stage),
    {
        let p = self.defaults.resolve(r.k, r.search_list, r.beam_width, r.flat);
        if p.l < p.k {
            return Stage::Respond(list_refusal(p));
        }
        BatchRun::go_on(self.dims, r.queries, p, Vec::new())
    }

    /// Goes on with what came of a request's body.
    pub fn body_read(&self, event: BodyEvent) -> (stage: Stage)
        ensures
            body_goes_on(*self, event, stage),
    {
        match event {
            BodyEvent::Unreadable(e) => Stage::Respond(read_failed(e.as_str())),
            BodyEvent::Malformed(e) => Stage::Respond(decode_failed(e.as_str())),
            BodyEvent::Search(r) => self.search(r),
            BodyEvent::Batch(r) => self.batch(r),
        }
    }

    /// Begins with a request: what needs no body is answered at once.
    pub fn handle(&self, method: Method, url: &str) -> (stage: Stage)
        ensures
            handle_begins(*self, method, url@, stage),
    {
        match route(method, url) {
            Route::Health => Stage::Respond(
                Reply { status: 200, body: Body::Health(Health { status: "ok" }) },
            ),
            Route::Info => Stage::Respond(Reply { status: 200, body: Body::Info(self.info()) }),
            Route::Search => Stage::ReadBody(Endpoint::Search),
            Route::Batch => Stage::ReadBody(Endpoint::Batch),
            Route::NotFound => Stage::Respond(err(404, "not found".to_owned())),
        }
    }
}

impl Reply {
    /// Errors, and only errors, come under another status than 200.
    pub open spec fn is_regular(self) -> bool {
        &&& self.status == 200 <==> !(self.body is Error)
        &&& self.status == 200 || self.status == 400 || self.status == 404 || self.status == 500
            || self.status == 503
    }
}

impl Stage {
    /// The reply that is sent, if one is, is regular.
    pub open spec fn is_regular(self) -> bool {
        self matches Stage::Respond(reply) ==> reply.is_regular()
    }
}

/// Every reply to a request is a success with its result under the status 200, or
/// an error in words under another status.
pub proof fn replies_are_regular(
    ctx: Ctx,
    method: Method,
    url: Seq<char>,
    event: BodyEvent,
    run: BatchRun,
    outcome: Result<SearchResponse, String>,
    stage: Stage,
    reply: Reply,
)
    ensures
        handle_begins(ctx, method, url, stage) ==> stage.is_regular(),
        body_goes_on(ctx, event, stage) ==> stage.is_regular(),
        batch_step(run, outcome, stage) ==> stage.is_regular(),
        search_answers(outcome, reply) ==> reply.is_regular(),
{
}

/// A search request is refused, with 400, just when its query has not the
/// index's dimension or its search list is shorter than the number of
/// neighbours; else its query is searched for, with its parameters.
pub proof fn refused_searches(ctx: Ctx, r: SearchRequest, stage: Stage)
    requires
        search_begins(ctx, r, stage),
    ensures
        stage matches Stage::Respond(reply) ==> reply.status == 400,
        stage is Respond <==> r.query@.len() != ctx.dims || r.params(ctx.defaults).l < r.params(
            ctx.defaults,
        ).k,
        stage is Search <==> !(stage is Respond),
        stage matches Stage::Search(job) ==> job.query == r.query && job.params == r.params(
            ctx.defaults,
        ) && job.query@.len() == ctx.dims && job.params.l >= job.params.k,
{
}

/// Only known requests are not answered with 404: `GET` of the two health
/// checks and of the description, `POST` of the two searches.
pub proof fn unknown_requests_are_not_found(ctx: Ctx, method: Method, url: Seq<char>, stage: Stage)
    requires
        handle_begins(ctx, method, url, stage),
    ensures
        (stage matches Stage::Respond(reply) && reply.status == 404) <==> !{
            ||| method == Method::Get && (url == "/healthz"@ || url == "/readyz"@ || url == "/info"@)
            ||| method == Method::Post && (url == "/search"@ || url == "/search/batch"@)
        },
{
}

/// A body is read for `POST` of the two searches, and for nothing else. What it
/// gives for `/search` is answered as a search, what it gives for
/// `/search/batch` as a batch, and what is no request is refused with 400.
pub proof fn bodies_are_answered_by_their_route(
    ctx: Ctx,
    method: Method,
    url: Seq<char>,
    first: Stage,
    event: BodyEvent,
    next: Stage,
)
    requires
        handle_begins(ctx, method, url, first),
        first matches Stage::ReadBody(endpoint) ==> endpoint.gives(event),
        body_goes_on(ctx, event, next),
    ensures
        first is ReadBody <==> method == Method::Post && (url == "/search"@ || url
            == "/search/batch"@),
        method == Method::Post && url == "/search"@ ==> {
            &&& first == Stage::ReadBody(Endpoint::Search)
            &&& match event {
                BodyEvent::Unreadable(e) => next matches Stage::Respond(reply) && reply.is_error(
                    400,
                    "read error: "@ + e@,
                ),
                BodyEvent::Malformed(e) => next matches Stage::Respond(reply) && reply.is_error(
                    400,
                    "invalid JSON: "@ + e@,
                ),
                BodyEvent::Search(r) => search_begins(ctx, r, next),
                BodyEvent::Batch(_) => false,
            }
            &&& next is Search || next is Respond
        },
        method == Method::Post && url == "/search/batch"@ ==> {
            &&& first == Stage::ReadBody(Endpoint::Batch)
            &&& match event {
                BodyEvent::Unreadable(e) => next matches Stage::Respond(reply) && reply.is_error(
                    400,
                    "read error: "@ + e@,
                ),
                BodyEvent::Malformed(e) => next matches Stage::Respond(reply) && reply.is_error(
                    400,
                    "invalid JSON: "@ + e@,
                ),
                BodyEvent::Search(_) => false,
                BodyEvent::Batch(r) => batch_begins(ctx, r, next),
            }
            &&& next is Batch || next is Respond
        },
{
    reveal_strlit("/search");
    reveal_strlit("/search/batch");
    assert("/search"@.len() != "/search/batch"@.len());
}

/// Whether `stages` are what a batch request goes through when its searches
/// give `outcomes`, one after the other.
pub open spec fn batch_trace(
    ctx: Ctx,
    r: BatchRequest,
    outcomes: Seq<Result<SearchResponse, String>>,
    stages: Seq<Stage>,
) -> bool {
    &&& stages.len() == outcomes.len() + 1
    &&& batch_begins(ctx, r, stages[0])
    &&& forall|i: int|
        0 <= i < outcomes.len() ==> (#[trigger] stages[i] matches Stage::Batch(run) && batch_step(
            run,
            outcomes[i],
            stages[i + 1],
        ))
}

/// What the first `n` searches found.
pub open spec fn found(outcomes: Seq<Result<SearchResponse, String>>, n: nat) -> Seq<
    SearchResponse,
> {
    Seq::new(n, |j: int| outcomes[j]->Ok_0)
}

proof fn lemma_batch_prefix(
    ctx: Ctx,
    r: BatchRequest,
    outcomes: Seq<Result<SearchResponse, String>>,
    stages: Seq<Stage>,
    i: nat,
)
    requires
        batch_trace(ctx, r, outcomes, stages),
        i <= outcomes.len(),
        stages[i as int] is Batch,
    ensures
        r.params(ctx.defaults).l >= r.params(ctx.defaults).k,
        forall|j: int| 0 <= j < i ==> outcomes[j] is Ok,
        i < r.queries@.len(),
        forall|j: int| 0 <= j <= i ==> (#[trigger] r.queries@[j])@.len() == ctx.dims,
        stages[i as int] matches Stage::Batch(run) && run.dims() == ctx.dims && run.queries()
            == r.queries@ && run.params() == r.params(ctx.defaults) && run.results() == found(
            outcomes,
            i,
        ),
    decreases i,
{
    if i == 0 {
        assert(found(outcomes, 0) =~= Seq::empty());
    } else {
        assert(stages[i - 1] is Batch);
        lemma_batch_prefix(ctx, r, outcomes, stages, (i - 1) as nat);
        assert(outcomes[i - 1] is Ok);
        assert(found(outcomes, i) =~= found(outcomes, (i - 1) as nat).push(
            outcomes[i - 1]->Ok_0,
        ));
    }
}

/// Every search that a batch runs is for its next query, in their order, with
/// the batch's parameters; that query has the index's dimension, and the search
/// list is long enough.
pub proof fn batch_searches_are_in_order(
    ctx: Ctx,
    r: BatchRequest,
    outcomes: Seq<Result<SearchResponse, String>>,
    stages: Seq<Stage>,
    i: nat,
)
    requires
        batch_trace(ctx, r, outcomes, stages),
        i < outcomes.len(),
    ensures
        stages[i as int] matches Stage::Batch(run) && run.queries() == r.queries@
            && run.results().len() == i && i < r.queries@.len() && r.queries@[i as int]@.len()
            == ctx.dims && run.params() == r.params(ctx.defaults) && run.params().l
            >= run.params().k,
{
    assert(stages[i as int] is Batch);
    lemma_batch_prefix(ctx, r, outcomes, stages, i);
    assert(r.queries@[i as int]@.len() == ctx.dims);
}

/// A batch is answered after at most one search per query, and its answer is
/// decided by the first query that goes wrong: a search list that is too short
/// is refused before any search, a query of another length when its turn comes,
/// and a search that fails fails the batch. When none goes wrong, the answer
/// holds what every search found, in the order of the queries.
pub proof fn batch_is_answered(
    ctx: Ctx,
    r: BatchRequest,
    outcomes: Seq<Result<SearchResponse, String>>,
    stages: Seq<Stage>,
)
    requires
        batch_trace(ctx, r, outcomes, stages),
    ensures
        outcomes.len() <= r.queries@.len(),
        outcomes.len() == r.queries@.len() ==> stages.last() is Respond,
        forall|j: int| 0 <= j < outcomes.len() - 1 ==> outcomes[j] is Ok,
        forall|j: int|
            0 <= j < outcomes.len() ==> (#[trigger] r.queries@[j])@.len() == ctx.dims,
        stages.last() matches Stage::Respond(reply) ==> {
            let p = r.params(ctx.defaults);
            let n = outcomes.len();
            if p.l < p.k {
                n == 0 && reply.is_error(400, list_message(p))
            } else if n > 0 && outcomes.last() is Err {
                reply.is_error(
                    500,
                    "query "@ + decimal((n - 1) as nat) + " failed: "@ + outcomes.last()->Err_0@,
                )
            } else if n == r.queries@.len() {
                reply.is_batch(found(outcomes, n))
            } else {
                r.queries@[n as int]@.len() != ctx.dims && reply.is_error(
                    400,
                    batch_dim_message(n, r.queries@[n as int]@.len(), ctx.dims as nat),
                )
            }
        },
{
    let n = outcomes.len();
    if n == 0 {
        assert(found(outcomes, 0) =~= Seq::empty());
    } else {
        assert(stages[n - 1] is Batch);
        lemma_batch_prefix(ctx, r, outcomes, stages, (n - 1) as nat);
        if outcomes[n - 1] is Ok {
            assert(found(outcomes, n) =~= found(outcomes, (n - 1) as nat).push(
                outcomes[n - 1]->Ok_0,
            ));
        }
    }
}

/// A query of a batch, as a request of its own.
pub open spec fn alone(r: BatchRequest, i: int) -> SearchRequest {
    SearchRequest {
        query: r.queries@[i],
        k: r.k,
        search_list: r.search_list,
        beam_width: r.beam_width,
        flat: r.flat,
    }
}

/// A batch succeeds just when its search list is long enough, every query has
/// the index's dimension and no search fails.
pub proof fn batch_succeeds_when_all_do(
    ctx: Ctx,
    r: BatchRequest,
    outcomes: Seq<Result<SearchResponse, String>>,
    stages: Seq<Stage>,
    reply: Reply,
)
    requires
        batch_trace(ctx, r, outcomes, stages),
        stages.last() == Stage::Respond(reply),
    ensures
        reply.status == 200 <==> {
            &&& r.params(ctx.defaults).l >= r.params(ctx.defaults).k
            &&& forall|i: int|
                0 <= i < r.queries@.len() ==> (#[trigger] r.queries@[i])@.len() == ctx.dims
            &&& forall|j: int| 0 <= j < outcomes.len() ==> outcomes[j] is Ok
        },
        reply.status == 200 ==> outcomes.len() == r.queries@.len() && reply.is_batch(
            found(outcomes, outcomes.len()),
        ),
{
    batch_is_answered(ctx, r, outcomes, stages);
    let n = outcomes.len();
    if n > 0 {
        assert(outcomes.last() == outcomes[n - 1]);
    }
}

/// In a batch that succeeds every query would succeed alone: it would be
/// searched for with the same parameters, and where the search gives the same
/// outcome, the answer would be the one that the batch's answer lists.
pub proof fn batch_is_its_queries(
    ctx: Ctx,
    r: BatchRequest,
    outcomes: Seq<Result<SearchResponse, String>>,
    stages: Seq<Stage>,
    reply: Reply,
    i: int,
    stage: Stage,
    single: Reply,
)
    requires
        batch_trace(ctx, r, outcomes, stages),
        stages.last() == Stage::Respond(reply),
        reply.status == 200,
        0 <= i < r.queries@.len(),
        search_begins(ctx, alone(r, i), stage),
        search_answers(outcomes[i], single),
    ensures
        stage == Stage::Search(
            SearchJob { query: r.queries@[i], params: r.params(ctx.defaults) },
        ),
        reply.body matches Body::Batch(all) && single.is_found(all.results@[i]),
{
    batch_succeeds_when_all_do(ctx, r, outcomes, stages, reply);
    assert(r.queries@[i]@.len() == ctx.dims);
}

/// What the index gives for a query is what the response lists: the same
/// vertices with the same distances, as many and in the same order.
pub proof fn results_become_neighbours(
    results: Vec<(u32, u32)>,
    comparisons: u32,
    search_ms: u64,
    out: SearchResponse,
)
    requires
        call_ensures(SearchResponse::from_results, (&results, comparisons, search_ms), out),
    ensures
        out.neighbors@.len() == results@.len(),
        forall|i: int|
            0 <= i < results@.len() ==> (#[trigger] out.neighbors@[i]).id == results@[i].0
                && out.neighbors@[i].distance == results@[i].1,
        out.comparisons == comparisons,
        out.search_ms == search_ms,
{
}

/// A search that found something is answered with all of it: under the status
/// 200, with the same neighbours in the same order, however many they are. One
/// that failed is answered under 500 with the reason.
pub proof fn everything_found_is_answered(
    outcome: Result<SearchResponse, String>,
    reply: Reply,
)
    requires
        call_ensures(search_reply, (outcome,), reply),
    ensures
        outcome matches Ok(out) ==> reply.status == 200 && (reply.body matches Body::Search(o) && {
            &&& o.neighbors@.len() == out.neighbors@.len()
            &&& forall|i: int|
                0 <= i < out.neighbors@.len() ==> (#[trigger] o.neighbors@[i]).id
                    == out.neighbors@[i].id && o.neighbors@[i].distance
                    == out.neighbors@[i].distance
            &&& o.comparisons == out.comparisons
            &&& o.search_ms == out.search_ms
        }),
        outcome matches Err(reason) ==> reply.status == 500 && (reply.body matches Body::Error(e)
            && e.error@ == "search failed: "@ + reason@),
{
}

/// From the index to the reply nothing is lost: a search that gives `results`
/// is answered with just those vertices and distances.
pub proof fn what_the_index_gives_is_answered(
    results: Vec<(u32, u32)>,
    comparisons: u32,
    search_ms: u64,
    out: SearchResponse,
    reply: Reply,
)
    requires
        call_ensures(SearchResponse::from_results, (&results, comparisons, search_ms), out),
        call_ensures(search_reply, (Ok(out),), reply),
    ensures
        reply.status == 200,
        reply.body matches Body::Search(o) && {
            &&& o.neighbors@.len() == results@.len()
            &&& forall|i: int|
                0 <= i < results@.len() ==> (#[trigger] o.neighbors@[i]).id == results@[i].0
                    && o.neighbors@[i].distance == results@[i].1
            &&& o.comparisons == comparisons
        },
{
    results_become_neighbours(results, comparisons, search_ms, out);
    everything_found_is_answered(Ok(out), reply);
}

/// An error is sent under its status, in its own words.
pub proof fn errors_are_sent_in_their_words(
    status: u16,
    msg: String,
    reply: Reply,
    reason: &str,
    unread: Reply,
    undecoded: Reply,
)
    requires
        call_ensures(err, (status, msg), reply),
        call_ensures(read_failed, (reason,), unread),
        call_ensures(decode_failed, (reason,), undecoded),
    ensures
        reply.status == status,
        reply.body matches Body::Error(e) && e.error@ == msg@,
        unread.status == 400,
        unread.body matches Body::Error(e) && e.error@ == "read error: "@ + reason@,
        undecoded.status == 400,
        undecoded.body matches Body::Error(e) && e.error@ == "invalid JSON: "@ + reason@,
{
}

/// Each of the five known requests has its route, and every other request has
/// none.
pub proof fn requests_have_their_routes(method: Method, url: &str, r: Route)
    requires
        call_ensures(route, (method, url), r),
    ensures
        r is Health <==> method is Get && (url@ == "/healthz"@ || url@ == "/readyz"@),
        r is Info <==> method is Get && url@ == "/info"@,
        r is Search <==> method is Post && url@ == "/search"@,
        r is Batch <==> method is Post && url@ == "/search/batch"@,
{
    reveal_strlit("/healthz");
    reveal_strlit("/readyz");
    reveal_strlit("/info");
    reveal_strlit("/search");
    reveal_strlit("/search/batch");
    assert("/healthz"@.len() == 8 && "/readyz"@.len() == 7 && "/info"@.len() == 5);
    assert("/search"@.len() == 7 && "/search/batch"@.len() == 13);
}

/// How a request begins: health checks and the description of the index are
/// answered at once, the searches read their body first, and anything else is
/// not found.
pub proof fn requests_begin_by_their_route(ctx: Ctx, method: Method, url: &str, stage: Stage)
    requires
        call_ensures(Ctx::handle, (&ctx, method, url), stage),
    ensures
        method is Get && (url@ == "/healthz"@ || url@ == "/readyz"@) ==> (
        stage matches Stage::Respond(reply) && reply.status == 200 && (
        reply.body matches Body::Health(h) && h.status@ == "ok"@)),
        method is Get && url@ == "/info"@ ==> (stage matches Stage::Respond(reply) && reply.status
            == 200 && (reply.body matches Body::Info(info) && {
            &&& info.num_points == ctx.num_points
            &&& info.dim == ctx.dims
            &&& info.defaults.k == ctx.defaults.k
            &&& info.defaults.search_list == ctx.defaults.search_list
            &&& info.defaults.beam_width == ctx.defaults.beam_width
            &&& info.defaults.flat == ctx.defaults.flat
            &&& ctx.metric == Metric::L2 ==> info.metric@ == "L2"@
            &&& ctx.metric == Metric::Cosine ==> info.metric@ == "Cosine"@
            &&& ctx.metric == Metric::CosineNormalized ==> info.metric@ == "CosineNormalized"@
            &&& ctx.metric == Metric::InnerProduct ==> info.metric@ == "InnerProduct"@
        })),
        method is Post && url@ == "/search"@ ==> stage == Stage::ReadBody(Endpoint::Search),
        method is Post && url@ == "/search/batch"@ ==> stage == Stage::ReadBody(Endpoint::Batch),
        !(method is Get && (url@ == "/healthz"@ || url@ == "/readyz"@ || url@ == "/info"@)) && !(
        method is Post && (url@ == "/search"@ || url@ == "/search/batch"@)) ==> (
        stage matches Stage::Respond(reply) && reply.status == 404 && (
        reply.body matches Body::Error(e) && e.error@ == "not found"@)),
{
    reveal_strlit("/healthz");
    reveal_strlit("/readyz");
    reveal_strlit("/info");
    reveal_strlit("/search");
    reveal_strlit("/search/batch");
    assert("/healthz"@.len() == 8 && "/readyz"@.len() == 7 && "/info"@.len() == 5);
    assert("/search"@.len() == 7 && "/search/batch"@.len() == 13);
}

/// The context has the sizes and the metric of the loaded index and the
/// configured defaults, and the description tells just those.
pub proof fn the_loaded_index_is_described(
    loaded: LoadedIndex,
    config: ServeConfig,
    ctx: Ctx,
    info: InfoResponse,
)
    requires
        call_ensures(Ctx::new, (&loaded, &config), ctx),
        call_ensures(Ctx::info, (&ctx,), info),
    ensures
        ctx.dims == loaded.dims && info.dim == loaded.dims,
        ctx.num_points == loaded.num_points && info.num_points == loaded.num_points,
        ctx.metric == loaded.metric,
        loaded.metric == Metric::L2 ==> info.metric@ == "L2"@,
        loaded.metric == Metric::Cosine ==> info.metric@ == "Cosine"@,
        loaded.metric == Metric::CosineNormalized ==> info.metric@ == "CosineNormalized"@,
        loaded.metric == Metric::InnerProduct ==> info.metric@ == "InnerProduct"@,
        ctx.defaults.k == config.defaults.k && info.defaults.k == config.defaults.k,
        ctx.defaults.search_list == config.defaults.search_list && info.defaults.search_list
            == config.defaults.search_list,
        ctx.defaults.beam_width == config.defaults.beam_width && info.defaults.beam_width
            == config.defaults.beam_width,
        ctx.defaults.flat == config.defaults.flat && info.defaults.flat == config.defaults.flat,
{
}

/// Bodies of up to 16 MiB pass unchanged, and larger ones do not pass.
pub proof fn bodies_pass_unchanged_or_not_at_all(
    body: Vec<u8>,
    r: Result<Vec<u8>, BodyEvent>,
)
    requires
        call_ensures(checked_body, (body,), r),
    ensures
        body@.len() <= 16 * 1024 * 1024 ==> (r matches Ok(b) && b@ == body@),
        body@.len() > 16 * 1024 * 1024 ==> (r matches Err(BodyEvent::Unreadable(e)) && e@
            == "body is larger than "@ + decimal(16 * 1024 * 1024) + " bytes"@),
{
}

/// What is no request is refused under 400 with the reason, and it is told
/// whether the body could not be read or could not be decoded.
pub proof fn what_is_no_request_is_refused(ctx: Ctx, reason: String, unread: Stage, undecoded: Stage)
    requires
        call_ensures(Ctx::body_read, (&ctx, BodyEvent::Unreadable(reason)), unread),
        call_ensures(Ctx::body_read, (&ctx, BodyEvent::Malformed(reason)), undecoded),
    ensures
        unread matches Stage::Respond(reply) && reply.status == 400 && (
        reply.body matches Body::Error(e) && e.error@ == "read error: "@ + reason@),
        undecoded matches Stage::Respond(reply) && reply.status == 400 && (
        reply.body matches Body::Error(e) && e.error@ == "invalid JSON: "@ + reason@),
{
}

/// A search request is searched for just when its query has the index's
/// dimension and its search list is at least as long as the number of
/// neighbours: for that very query, and with each parameter as the request gives
/// it or, where it gives none, as the defaults have it. Otherwise it is refused
/// under 400, and the dimension is looked at first.
pub proof fn search_requests_are_searched_for(ctx: Ctx, r: SearchRequest, stage: Stage)
    requires
        call_ensures(Ctx::search, (&ctx, r), stage) || call_ensures(
            Ctx::body_read,
            (&ctx, BodyEvent::Search(r)),
            stage,
        ),
    ensures
        ({
            let k = match r.k {
                Some(x) => x,
                None => ctx.defaults.k,
            };
            let l = match r.search_list {
                Some(x) => x,
                None => ctx.defaults.search_list,
            };
            &&& stage is Search <==> r.query@.len() == ctx.dims && l >= k
            &&& stage is Search || stage is Respond
            &&& r.query@.len() != ctx.dims ==> (stage matches Stage::Respond(reply) && reply.status
                == 400 && (reply.body matches Body::Error(e) && e.error@ == "query dim "@ + decimal(
                r.query@.len(),
            ) + " != index dim "@ + decimal(ctx.dims as nat)))
            &&& r.query@.len() == ctx.dims && l < k ==> (stage matches Stage::Respond(reply)
                && reply.status == 400 && (reply.body matches Body::Error(e) && e.error@
                == "search_list "@ + decimal(l as nat) + " must be >= k "@ + decimal(k as nat)))
        }),
        stage matches Stage::Search(job) ==> {
            &&& job.query@ == r.query@
            &&& r.k matches Some(x) ==> job.params.k == x
            &&& r.k is None ==> job.params.k == ctx.defaults.k
            &&& r.search_list matches Some(x) ==> job.params.l == x
            &&& r.search_list is None ==> job.params.l == ctx.defaults.search_list
            &&& r.beam_width matches Some(x) ==> job.params.beam == x
            &&& r.beam_width is None ==> job.params.beam == ctx.defaults.beam_width
            &&& r.flat matches Some(x) ==> job.params.flat == x
            &&& r.flat is None ==> job.params.flat == ctx.defaults.flat
        },
{
}

/// A batch that is searched for, stage by stage: each search is for the next
/// query, from the first on, and with each parameter as the request gives it or,
/// where it gives none, as the defaults have it. It is only run for a query of
/// the index's dimension, after searches that all succeeded.
pub proof fn batch_queries_are_searched_for(
    ctx: Ctx,
    r: BatchRequest,
    outcomes: Seq<Result<SearchResponse, String>>,
    stages: Seq<Stage>,
    i: int,
    run: BatchRun,
    query: &Vec<u32>,
    p: Params,
)
    requires
        call_ensures(Ctx::batch, (&ctx, r), stages[0]) || call_ensures(
            Ctx::body_read,
            (&ctx, BodyEvent::Batch(r)),
            stages[0],
        ),
        stages.len() == outcomes.len() + 1,
        forall|j: int|
            0 <= j < outcomes.len() ==> (#[trigger] stages[j] matches Stage::Batch(at)
                && call_ensures(BatchRun::searched, (at, outcomes[j]), stages[j + 1])),
        0 <= i <= outcomes.len(),
        stages[i] == Stage::Batch(run),
        call_ensures(BatchRun::query, (&run,), query),
        call_ensures(BatchRun::search_params, (&run,), p),
    ensures
        i < r.queries@.len(),
        query@ == r.queries@[i]@,
        query@.len() == ctx.dims,
        p.l >= p.k,
        forall|j: int| 0 <= j < i ==> outcomes[j] is Ok,
        ({
            &&& r.k matches Some(x) ==> p.k == x
            &&& r.k is None ==> p.k == ctx.defaults.k
            &&& r.search_list matches Some(x) ==> p.l == x
            &&& r.search_list is None ==> p.l == ctx.defaults.search_list
            &&& r.beam_width matches Some(x) ==> p.beam == x
            &&& r.beam_width is None ==> p.beam == ctx.defaults.beam_width
            &&& r.flat matches Some(x) ==> p.flat == x
            &&& r.flat is None ==> p.flat == ctx.defaults.flat
        }),
{
    assert(batch_trace(ctx, r, outcomes, stages)) by {
        assert forall|j: int| 0 <= j < outcomes.len() implies (
        #[trigger] stages[j] matches Stage::Batch(at) && batch_step(
            at,
            outcomes[j],
            stages[j + 1],
        )) by {}
    }
    lemma_batch_prefix(ctx, r, outcomes, stages, i as nat);
}

/// How a batch is answered. A search list that is too short is refused under 400
/// before any search. Then the first query that goes wrong decides: under 400
/// where it has not the index's dimension, under 500 where its search failed,
/// and the reply names it. When none goes wrong, the reply under 200 holds a
/// result for each query, in their order: all that the search for it found.
pub proof fn batches_are_answered_query_by_query(
    ctx: Ctx,
    r: BatchRequest,
    outcomes: Seq<Result<SearchResponse, String>>,
    stages: Seq<Stage>,
)
    requires
        call_ensures(Ctx::batch, (&ctx, r), stages[0]) || call_ensures(
            Ctx::body_read,
            (&ctx, BodyEvent::Batch(r)),
            stages[0],
        ),
        stages.len() == outcomes.len() + 1,
        forall|j: int|
            0 <= j < outcomes.len() ==> (#[trigger] stages[j] matches Stage::Batch(at)
                && call_ensures(BatchRun::searched, (at, outcomes[j]), stages[j + 1])),
    ensures
        ({
            let k = match r.k {
                Some(x) => x,
                None => ctx.defaults.k,
            };
            let l = match r.search_list {
                Some(x) => x,
                None => ctx.defaults.search_list,
            };
            let n = outcomes.len();
            &&& stages.last() is Batch || stages.last() is Respond
            &&& stages.last() is Batch <==> {
                &&& l >= k
                &&& n < r.queries@.len()
                &&& r.queries@[n as int]@.len() == ctx.dims
                &&& forall|j: int| 0 <= j < n ==> outcomes[j] is Ok
            }
            &&& l < k ==> n == 0
            &&& n <= r.queries@.len()
            &&& forall|j: int| 0 <= j < n - 1 ==> outcomes[j] is Ok
            &&& stages.last() matches Stage::Respond(reply) ==> if l < k {
                reply.status == 400 && (reply.body matches Body::Error(e) && e.error@
                    == "search_list "@ + decimal(l as nat) + " must be >= k "@ + decimal(k as nat))
            } else if n > 0 && outcomes[n - 1] is Err {
                reply.status == 500 && (reply.body matches Body::Error(e) && e.error@ == "query "@
                    + decimal((n - 1) as nat) + " failed: "@ + outcomes[n - 1]->Err_0@)
            } else if n < r.queries@.len() {
                reply.status == 400 && (reply.body matches Body::Error(e) && e.error@ == "query "@
                    + decimal(n) + " dim "@ + decimal(r.queries@[n as int]@.len())
                    + " != index dim "@ + decimal(ctx.dims as nat))
            } else {
                reply.status == 200 && (reply.body matches Body::Batch(all) && {
                    &&& all.results@.len() == r.queries@.len()
                    &&& forall|j: int|
                        0 <= j < n ==> {
                            let out = outcomes[j]->Ok_0;
                            &&& (#[trigger] all.results@[j]).neighbors@.len() == out.neighbors@.len()
                            &&& forall|m: int|
                                0 <= m < out.neighbors@.len() ==> (
                                #[trigger] all.results@[j].neighbors@[m]).id
                                    == out.neighbors@[m].id && all.results@[j].neighbors@[m].distance
                                    == out.neighbors@[m].distance
                            &&& all.results@[j].comparisons == out.comparisons
                            &&& all.results@[j].search_ms == out.search_ms
                        }
                })
            }
        }),
{
    assert(batch_trace(ctx, r, outcomes, stages)) by {
        assert forall|j: int| 0 <= j < outcomes.len() implies (
        #[trigger] stages[j] matches Stage::Batch(at) && batch_step(
            at,
            outcomes[j],
            stages[j + 1],
        )) by {}
    }
    let n = outcomes.len();
    batch_is_answered(ctx, r, outcomes, stages);
    assert(stages.last() == stages[n as int]);
    if stages.last() is Batch {
        lemma_batch_prefix(ctx, r, outcomes, stages, n);
        assert(r.queries@[n as int]@.len() == ctx.dims);
    }
    if n > 0 {
        assert(outcomes.last() == outcomes[n - 1]);
        assert(stages[n - 1] is Batch);
        lemma_batch_prefix(ctx, r, outcomes, stages, (n - 1) as nat);
    }
}

} // verus!
