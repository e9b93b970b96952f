//! What holds of the client and the server together.

use crate::args::{
    accepted_args_are_usable, command_line, no_options, parse_args, texts, Args, ArgsErrorView,
    ArgsView,
};
use crate::config::{built_in_defaults, Params, ServeConfig};
use crate::inputs::{metric_of, name_of_metric};
use crate::loader::{LoadPlan, LoadedIndex};
use crate::serve::{
    batch_begins, route_of, search_begins, BatchRequest, BatchRun, Ctx, InfoResponse, Method, Route,
    SearchRequest, Stage,
};
use crate::text::without_trailing_slashes;
use vstd::prelude::*;

verus! {

/// After the server's URL, the client's requests go to the path that the server
/// knows as the route for them.
pub proof fn client_paths_are_routes(args: Args)
    ensures
        ({
            let base = without_trailing_slashes(args.server@);
            let path = args.target().skip(base.len() as int);
            &&& args.target() == base + path
            &&& route_of(Method::Post, path) == if args.batch {
                Route::Batch
            } else {
                Route::Search
            }
        }),
{
    reveal_strlit("/search");
    reveal_strlit("/search/batch");
    assert("/search"@.len() != "/search/batch"@.len());
    let base = without_trailing_slashes(args.server@);
    assert(args.target().skip(base.len() as int) =~= if args.batch {
        "/search/batch"@
    } else {
        "/search"@
    });
}

proof fn lemma_no_trailing_slash(s: Seq<char>)
    ensures
        without_trailing_slashes(s).len() > 0 ==> without_trailing_slashes(s).last() != '/',
    decreases s.len(),
{
    if s.len() > 0 && s.last() == '/' {
        lemma_no_trailing_slash(s.drop_last());
    }
}

proof fn lemma_one_slash_more(s: Seq<char>)
    ensures
        without_trailing_slashes(s.push('/')) == without_trailing_slashes(s),
{
    assert(s.push('/').drop_last() =~= s);
}

/// A slash at the end of the server's URL makes no difference to where requests
/// go, and the path is set off from the rest by one slash only.
pub proof fn trailing_slash_is_no_matter(a: Args, b: Args)
    requires
        b.server@ == a.server@.push('/'),
        a.batch == b.batch,
    ensures
        a.target() == b.target(),
        without_trailing_slashes(a.server@).len() > 0 ==> without_trailing_slashes(
            a.server@,
        ).last() != '/',
{
    lemma_one_slash_more(a.server@);
    lemma_no_trailing_slash(a.server@);
}

/// A client that was given no parameters asks for the search that a server
/// without configured defaults would run anyway.
pub proof fn client_and_server_defaults_agree()
    ensures
        no_options().k == built_in_defaults().k,
        no_options().search_list == built_in_defaults().search_list,
        no_options().beam_width == built_in_defaults().beam_width,
        no_options().flat == built_in_defaults().flat,
{
}

/// What the client sends after an accepted command line is refused only for the
/// dimension of the query, and searched for with just the parameters of that
/// command line, whatever the server's defaults are.
pub proof fn accepted_args_pass_the_checks(
    argv: Seq<Seq<char>>,
    args: Args,
    ctx: Ctx,
    query: Vec<u32>,
    stage: Stage,
)
    requires
        command_line(argv) == Ok::<ArgsView, ArgsErrorView>(args@),
        search_begins(ctx, args.asks(query), stage),
    ensures
        stage is Respond <==> query@.len() != ctx.dims,
        stage matches Stage::Search(job) ==> job.query == query && job.params == (Params {
            k: args.k,
            l: args.search_list,
            beam: args.beam_width,
            flat: args.flat,
        }),
{
    accepted_args_are_usable(argv);
}

/// A batch that the client sends after an accepted command line begins with the
/// search for its first query, unless that query has another length than the
/// index's dimension.
pub proof fn accepted_args_begin_a_batch(
    argv: Seq<Seq<char>>,
    args: Args,
    ctx: Ctx,
    queries: Vec<Vec<u32>>,
    stage: Stage,
)
    requires
        command_line(argv) == Ok::<ArgsView, ArgsErrorView>(args@),
        queries@.len() > 0,
        batch_begins(ctx, args.asks_for_all(queries), stage),
    ensures
        stage is Respond <==> queries@[0]@.len() != ctx.dims,
        stage is Batch <==> queries@[0]@.len() == ctx.dims,
{
    accepted_args_are_usable(argv);
}

/// The server describes the index that it was configured to load: the sizes are
/// those found in the files, the metric is the configured one.
pub proof fn served_index_is_the_configured_one(
    config: ServeConfig,
    plan: LoadPlan,
    num_points: usize,
    dims: usize,
    info: InfoResponse,
)
    requires
        plan.is_for(
            config.load_path@,
            config.distance,
            config.workers,
            config.search_io_limit,
            config.num_nodes_to_cache,
        ),
        Ctx::serving(LoadedIndex { num_points, dims, metric: plan.metric }, config).is_info(info),
    ensures
        info.num_points == num_points,
        info.dim == dims,
        info.metric@ == name_of_metric(metric_of(config.distance)),
        info.defaults == config.defaults,
{
}

/// From the command line to the search: the server that gets the client's
/// request for a query of the index's dimension searches for that very query,
/// with just the parameters of the command line, whatever its own defaults are.
pub proof fn command_lines_reach_the_search(
    argv: Vec<String>,
    args: Args,
    query: Vec<u32>,
    request: SearchRequest,
    ctx: Ctx,
    stage: Stage,
)
    requires
        call_ensures(parse_args, (&argv,), Ok(args)),
        call_ensures(Args::search_request, (&args, query), request),
        call_ensures(Ctx::search, (&ctx, request), stage),
    ensures
        query@.len() == ctx.dims ==> (stage matches Stage::Search(job) && {
            &&& job.query@ == query@
            &&& job.params.k == args.k
            &&& job.params.l == args.search_list
            &&& job.params.beam == args.beam_width
            &&& job.params.flat == args.flat
        }),
        query@.len() != ctx.dims ==> (stage matches Stage::Respond(reply) && reply.status == 400),
{
    accepted_args_are_usable(texts(argv@));
}

/// A query asked for alone and the same query asked for in a batch are searched
/// for alike: the search for a batch's first query has the query and the
/// parameters of the search for it alone.
pub proof fn batches_and_single_queries_are_searched_alike(
    args: Args,
    queries: Vec<Vec<u32>>,
    one: SearchRequest,
    all: BatchRequest,
    ctx: Ctx,
    single: Stage,
    batch: Stage,
)
    requires
        queries@.len() > 0,
        call_ensures(Args::search_request, (&args, queries@[0]), one),
        call_ensures(Args::batch_request, (&args, queries), all),
        call_ensures(Ctx::search, (&ctx, one), single),
        call_ensures(Ctx::batch, (&ctx, all), batch),
    ensures
        single is Search <==> batch is Batch,
        single matches Stage::Search(job) ==> batch matches Stage::Batch(run) ==> {
            &&& forall|q: &Vec<u32>| #[trigger]
                call_ensures(BatchRun::query, (&run,), q) ==> q@ == job.query@
            &&& forall|p: Params| #[trigger]
                call_ensures(BatchRun::search_params, (&run,), p) ==> p == job.params
        },
{
}

} // verus!
