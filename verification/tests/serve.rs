use diskann3_rest::config::{Params, SearchDefaults};
use diskann3_rest::inputs::{DataType, SimilarityMeasure};
use diskann3_rest::config::ServeConfig;
use diskann3_rest::loader::LoadedIndex;
use diskann3_rest::serve::{
    checked_body, decode_failed, err, read_failed, route, search_reply, BatchRequest, BatchRun, Body,
    BodyEvent, Ctx, Endpoint, Method, Neighbor, Reply, Route, SearchRequest, SearchResponse, Stage,
    MAX_BODY_BYTES,
};
use diskann_vector::distance::Metric;

fn ctx(dims: usize) -> Ctx {
    Ctx { dims, num_points: 1_000_000, metric: Metric::L2, defaults: SearchDefaults::default() }
}

fn found(id: u32) -> SearchResponse {
    SearchResponse::from_results(&vec![(id, 0.5f32.to_bits())], 312, 1.25f64.to_bits())
}

fn search(query: Vec<u32>, k: Option<u32>, search_list: Option<u32>) -> SearchRequest {
    SearchRequest { query, k, search_list, beam_width: None, flat: None }
}

fn batch(queries: Vec<Vec<u32>>, k: Option<u32>) -> BatchRequest {
    BatchRequest { queries, k, search_list: None, beam_width: None, flat: None }
}

fn reply(stage: Stage) -> Reply {
    match stage {
        Stage::Respond(r) => r,
        other => panic!("{other:?}"),
    }
}

fn running(stage: Stage) -> BatchRun {
    match stage {
        Stage::Batch(r) => r,
        other => panic!("{other:?}"),
    }
}

fn error(r: Reply) -> (u16, String) {
    match r.body {
        Body::Error(e) => (r.status, e.error),
        other => panic!("{other:?}"),
    }
}

#[test]
fn requests_lead_where_the_routes_say() {
    assert_eq!(route(Method::Get, "/healthz"), Route::Health);
    assert_eq!(route(Method::Get, "/readyz"), Route::Health);
    assert_eq!(route(Method::Get, "/info"), Route::Info);
    assert_eq!(route(Method::Post, "/search"), Route::Search);
    assert_eq!(route(Method::Post, "/search/batch"), Route::Batch);
    for (m, u) in [
        (Method::Get, "/search"),
        (Method::Get, "/search/batch"),
        (Method::Post, "/info"),
        (Method::Post, "/healthz"),
        (Method::Other, "/search"),
        (Method::Other, "/healthz"),
        (Method::Get, "/"),
        (Method::Get, ""),
        (Method::Get, "/info?x=1"),
        (Method::Post, "/search/"),
    ] {
        assert_eq!(route(m, u), Route::NotFound, "{u}");
    }
}

#[test]
fn health_is_answered_at_once() {
    for u in ["/healthz", "/readyz"] {
        let r = reply(ctx(4).handle(Method::Get, u));
        assert_eq!(r.status, 200);
        assert!(matches!(r.body, Body::Health(h) if h.status == "ok"));
    }
}

#[test]
fn the_index_is_described() {
    let r = reply(ctx(128).handle(Method::Get, "/info"));
    assert_eq!(r.status, 200);
    match r.body {
        Body::Info(i) => {
            assert_eq!((i.num_points, i.dim, i.metric), (1_000_000, 128, "L2"));
            let d = i.defaults;
            assert_eq!((d.k, d.search_list, d.beam_width, d.flat), (10, 100, 4, false));
        }
        other => panic!("{other:?}"),
    }
}

#[test]
fn the_context_is_taken_from_index_and_configuration() {
    let loaded = LoadedIndex { num_points: 7, dims: 3, metric: Metric::Cosine };
    let config = ServeConfig {
        load_path: String::new(),
        data_type: DataType::Float32,
        distance: SimilarityMeasure::Cosine,
        addr: String::new(),
        workers: 1,
        queue_capacity: 1,
        num_nodes_to_cache: None,
        search_io_limit: None,
        defaults: SearchDefaults { k: 2, search_list: 3, beam_width: 5, flat: true },
    };
    let i = Ctx::new(&loaded, &config).info();
    assert_eq!((i.num_points, i.dim, i.metric), (7, 3, "Cosine"));
    assert_eq!((i.defaults.k, i.defaults.beam_width, i.defaults.flat), (2, 5, true));
}

#[test]
fn searches_need_a_body() {
    assert!(matches!(
        ctx(4).handle(Method::Post, "/search"),
        Stage::ReadBody(Endpoint::Search)
    ));
    assert!(matches!(
        ctx(4).handle(Method::Post, "/search/batch"),
        Stage::ReadBody(Endpoint::Batch)
    ));
    assert_eq!(MAX_BODY_BYTES, 16_777_216);
}

#[test]
fn unknown_routes_are_not_found() {
    let r = reply(ctx(4).handle(Method::Get, "/nowhere"));
    assert_eq!(error(r), (404, "not found".to_string()));
}

#[test]
fn unreadable_bodies_are_refused() {
    assert_eq!(error(read_failed("timed out")), (400, "read error: timed out".to_string()));
    assert_eq!(
        error(decode_failed("EOF while parsing")),
        (400, "invalid JSON: EOF while parsing".to_string())
    );
    assert_eq!(error(err(418, "teapot".to_string())), (418, "teapot".to_string()));
}

#[test]
fn what_came_of_a_body_decides_what_comes_next() {
    let c = ctx(2);
    let r = reply(c.body_read(BodyEvent::Unreadable("timed out".to_string())));
    assert_eq!(error(r), (400, "read error: timed out".to_string()));
    let r = reply(c.body_read(BodyEvent::Malformed("EOF".to_string())));
    assert_eq!(error(r), (400, "invalid JSON: EOF".to_string()));
    match c.body_read(BodyEvent::Search(search(vec![5, 6], None, None))) {
        Stage::Search(job) => assert_eq!(job.query, vec![5, 6]),
        other => panic!("{other:?}"),
    }
    let run = running(c.body_read(BodyEvent::Batch(batch(vec![vec![7, 8]], None))));
    assert_eq!(run.query(), &vec![7, 8]);
}

#[test]
fn a_body_is_answered_by_its_route() {
    let c = ctx(2);
    match c.handle(Method::Post, "/search") {
        Stage::ReadBody(endpoint) => assert_eq!(endpoint, Endpoint::Search),
        other => panic!("{other:?}"),
    }
    let next = c.body_read(BodyEvent::Search(search(vec![1, 2], Some(3), None)));
    assert!(matches!(next, Stage::Search(_)));
    match c.handle(Method::Post, "/search/batch") {
        Stage::ReadBody(endpoint) => assert_eq!(endpoint, Endpoint::Batch),
        other => panic!("{other:?}"),
    }
    let next = c.body_read(BodyEvent::Batch(batch(vec![vec![1, 2]], Some(3))));
    assert!(matches!(next, Stage::Batch(_)));
    for (m, u) in [(Method::Get, "/search"), (Method::Other, "/search/batch"), (Method::Post, "/")] {
        assert!(!matches!(c.handle(m, u), Stage::ReadBody(_)));
    }
}

#[test]
fn bodies_that_are_too_large_are_rejected() {
    let limit = MAX_BODY_BYTES as usize;
    assert_eq!(checked_body(vec![]).unwrap().len(), 0);
    assert_eq!(checked_body(b"{}".to_vec()).unwrap(), b"{}".to_vec());
    assert_eq!(checked_body(vec![32; limit]).unwrap().len(), limit);
    let event = checked_body(vec![32; limit + 1]).unwrap_err();
    let r = reply(ctx(1).body_read(event));
    assert_eq!(error(r), (400, "read error: body is larger than 16777216 bytes".to_string()));
}

#[test]
fn a_query_of_another_length_is_refused() {
    let r = reply(ctx(4).search(search(vec![0; 3], None, None)));
    assert_eq!(error(r), (400, "query dim 3 != index dim 4".to_string()));
}

#[test]
fn a_search_list_shorter_than_k_is_refused() {
    let r = reply(ctx(1).search(search(vec![0], Some(101), None)));
    assert_eq!(error(r), (400, "search_list 100 must be >= k 101".to_string()));
    let r = reply(ctx(1).search(search(vec![0], None, Some(9))));
    assert_eq!(error(r), (400, "search_list 9 must be >= k 10".to_string()));
}

#[test]
fn the_length_of_the_query_is_checked_first() {
    let r = reply(ctx(2).search(search(vec![0], Some(101), None)));
    assert_eq!(error(r), (400, "query dim 1 != index dim 2".to_string()));
}

#[test]
fn a_sound_request_is_searched_for() {
    match ctx(2).search(search(vec![5, 6], Some(100), None)) {
        Stage::Search(job) => {
            assert_eq!(job.query, vec![5, 6]);
            assert_eq!(job.params, Params { k: 100, l: 100, beam: 4, flat: false });
        }
        other => panic!("{other:?}"),
    }
}

#[test]
fn results_keep_their_order() {
    let r = SearchResponse::from_results(&vec![(4823, 1), (91, 2), (7, 3)], 312, 9);
    assert_eq!(
        r.neighbors,
        vec![
            Neighbor { id: 4823, distance: 1 },
            Neighbor { id: 91, distance: 2 },
            Neighbor { id: 7, distance: 3 },
        ]
    );
    assert_eq!((r.comparisons, r.search_ms), (312, 9));
}

#[test]
fn the_outcome_of_a_search_is_answered() {
    let r = search_reply(Ok(found(3)));
    assert_eq!(r.status, 200);
    assert!(matches!(r.body, Body::Search(out) if out == found(3)));
    let r = search_reply(Err("disk gone".to_string()));
    assert_eq!(error(r), (500, "search failed: disk gone".to_string()));
}

#[test]
fn a_batch_answers_its_queries_in_order() {
    let run = running(ctx(2).batch(batch(vec![vec![1, 2], vec![3, 4]], Some(5))));
    assert_eq!(run.query(), &vec![1, 2]);
    assert_eq!(run.search_params(), Params { k: 5, l: 100, beam: 4, flat: false });
    let run = running(run.searched(Ok(found(10))));
    assert_eq!(run.query(), &vec![3, 4]);
    assert_eq!(run.search_params(), Params { k: 5, l: 100, beam: 4, flat: false });
    let r = reply(run.searched(Ok(found(20))));
    assert_eq!(r.status, 200);
    assert!(matches!(r.body, Body::Batch(b) if b.results == vec![found(10), found(20)]));
}

#[test]
fn an_empty_batch_succeeds() {
    let r = reply(ctx(2).batch(batch(vec![], None)));
    assert_eq!(r.status, 200);
    assert!(matches!(r.body, Body::Batch(b) if b.results.is_empty()));
}

#[test]
fn a_batch_with_a_short_search_list_runs_no_search() {
    let r = reply(ctx(2).batch(batch(vec![vec![1, 2]], Some(101))));
    assert_eq!(error(r), (400, "search_list 100 must be >= k 101".to_string()));
    let r = reply(ctx(2).batch(batch(vec![vec![1]], Some(101))));
    assert_eq!(error(r), (400, "search_list 100 must be >= k 101".to_string()));
    let r = reply(ctx(2).batch(batch(vec![], Some(101))));
    assert_eq!(error(r), (400, "search_list 100 must be >= k 101".to_string()));
}

#[test]
fn a_query_of_another_length_ends_the_batch_at_its_turn() {
    let run = running(ctx(2).batch(batch(vec![vec![1, 2], vec![3], vec![]], None)));
    let r = reply(run.searched(Ok(found(1))));
    assert_eq!(error(r), (400, "query 1 dim 1 != index dim 2".to_string()));
    let r = reply(ctx(2).batch(batch(vec![vec![]], None)));
    assert_eq!(error(r), (400, "query 0 dim 0 != index dim 2".to_string()));
}

#[test]
fn a_failed_search_ends_the_batch() {
    let run = running(ctx(1).batch(batch(vec![vec![1], vec![2], vec![3]], None)));
    let run = running(run.searched(Ok(found(1))));
    let r = reply(run.searched(Err("io limit".to_string())));
    assert_eq!(error(r), (500, "query 1 failed: io limit".to_string()));
}
