//! What the client sends, and what it makes of the answers.

use crate::args::Args;
use crate::serve::{BatchRequest, Neighbor, SearchRequest};
use crate::text::{
    decimal, is_white_space, push_decimal, slashes_are_cut_off, trim, trim_end_slashes, trimmed,
    white_space_is_cut_off, without_trailing_slashes,
};
use vstd::prelude::*;

verus! {

/// Keeps the first `limit` queries, or all of them. With no query left there is
/// nothing to send, and the error says so.
pub fn select_queries(queries: Vec<Vec<u32>>, limit: Option<usize>) -> (r: Result<
    Vec<Vec<u32>>,
    &'static str,
>)
    ensures
        r is Ok <==> queries@.len() > 0 && limit != Some(0usize),
        r matches Ok(kept) ==> kept@ == within_limit(queries@, limit),
        r matches Err(e) ==> e@ == "no queries to send"@,
{
    let mut queries = queries;
    if let Some(n) = limit {
        queries.truncate(n);
    }
    if queries.len() == 0 {
        return Err("no queries to send");
    }
    Ok(queries)
}

/// The first `limit` of `queries`, or all of them.
pub open spec fn within_limit<T>(queries: Seq<T>, limit: Option<usize>) -> Seq<T> {
    match limit {
        Some(n) => if n < queries.len() {
            queries.take(n as int)
        } else {
            queries
        },
        None => queries,
    }
}

impl Args {
    /// The URL that requests go to.
    pub open spec fn target(self) -> Seq<char> {
        without_trailing_slashes(self.server@) + if self.batch {
            "/search/batch"@
        } else {
            "/search"@
        }
    }

    /// The URL that requests go to.
    pub fn url(&self) -> (url: String)
        ensures
            url@ == self.target(),
    {
        let mut url = trim_end_slashes(self.server.as_str()).to_owned();
        if self.batch {
            url.append("/search/batch");
        } else {
            url.append("/search");
        }
        url
    }

    /// The request for one query.
    pub open spec fn asks(self, query: Vec<u32>) -> SearchRequest {
        SearchRequest {
            query,
            k: Some(self.k),
            search_list: Some(self.search_list),
            beam_width: Some(self.beam_width),
            flat: Some(self.flat),
        }
    }

    /// The request for one query.
    pub fn search_request(&self, query: Vec<u32>) -> (r: SearchRequest)
        ensures
            r == self.asks(query),
    {
        SearchRequest {
            query,
            k: Some(self.k),
            search_list: Some(self.search_list),
            beam_width: Some(self.beam_width),
            flat: Some(self.flat),
        }
    }

    /// The request for all queries at once.
    pub open spec fn asks_for_all(self, queries: Vec<Vec<u32>>) -> BatchRequest {
        BatchRequest {
            queries,
            k: Some(self.k),
            search_list: Some(self.search_list),
            beam_width: Some(self.beam_width),
            flat: Some(self.flat),
        }
    }

    /// The request for all queries at once.
    pub fn batch_request(&self, queries: Vec<Vec<u32>>) -> (r: BatchRequest)
        ensures
            r == self.asks_for_all(queries),
    {
        BatchRequest {
            queries,
            k: Some(self.k),
            search_list: Some(self.search_list),
            beam_width: Some(self.beam_width),
            flat: Some(self.flat),
        }
    }

    /// Whether each query's answer is printed.
    pub fn verbose(&self) -> (v: bool)
        ensures
            v == (self.concurrency == 1 && !self.quiet),
    {
        self.concurrency == 1 && !self.quiet
    }
}

/// Whether an HTTP status tells of success.
pub fn is_success(status: u16) -> (r: bool)
    ensures
        r == (200 <= status < 300),
{
    200 <= status && status < 300
}

/// The error of a response that is not a success: its status and its text.
pub fn http_error(status: u16, body: &str) -> (s: String)
    ensures
        s@ == "HTTP "@ + decimal(status as nat) + ": "@ + trimmed(body@),
{
    let mut s = "HTTP ".to_owned();
    push_decimal(&mut s, status as u128);
    s.append(": ");
    s.append(trim(body));
    s
}

/// Why a response is not taken, if it is not a success.
pub fn refusal(status: u16, text: &str) -> (r: Option<String>)
    ensures
        r is None <==> 200 <= status < 300,
        r matches Some(s) ==> s@ == "HTTP "@ + decimal(status as nat) + ": "@ + trimmed(text@),
{
    if is_success(status) {
        None
    } else {
        Some(http_error(status, text))
    }
}

/// The ids of the first five neighbours, and whether there are more.
pub fn preview(neighbors: &Vec<Neighbor>) -> (r: (Vec<u32>, bool))
    ensures
        r.0@.len() == if neighbors@.len() < 5 {
            neighbors@.len()
        } else {
            5
        },
        forall|i: int| 0 <= i < r.0@.len() ==> r.0@[i] == neighbors@[i].id,
        r.1 == (neighbors@.len() > 5),
{
    let mut ids: Vec<u32> = Vec::new();
    let mut i: usize = 0;
    while i < neighbors.len() && i < 5
        invariant
            i <= neighbors.len(),
            i <= 5,
            ids@.len() == i,
            forall|j: int| 0 <= j < i ==> ids@[j] == neighbors@[j].id,
        decreases neighbors.len() - i,
    {
        ids.push(neighbors[i].id);
        i += 1;
    }
    (ids, neighbors.len() > 5)
}

/// The sum of `values`.
pub open spec fn sum(values: Seq<u32>) -> nat
    decreases values.len(),
{
    if values.len() == 0 {
        0
    } else {
        sum(values.drop_last()) + values.last() as nat
    }
}

proof fn lemma_sum_of_prefix(values: Seq<u32>, n: int)
    requires
        0 <= n <= values.len(),
    ensures
        sum(values.take(n)) <= sum(values),
    decreases values.len(),
{
    if n < values.len() {
        assert(values.drop_last().take(n) =~= values.take(n));
        lemma_sum_of_prefix(values.drop_last(), n);
    } else {
        assert(values.take(n) =~= values);
    }
}

/// How many comparisons the searches of a batch took together.
pub fn total_comparisons(comparisons: &Vec<u32>) -> (total: u64)
    requires
        sum(comparisons@) <= u64::MAX,
    ensures
        total == sum(comparisons@),
{
    let mut total: u64 = 0;
    let mut i: usize = 0;
    while i < comparisons.len()
        invariant
            i <= comparisons.len(),
            sum(comparisons@) <= u64::MAX,
            total == sum(comparisons@.take(i as int)),
        decreases comparisons.len() - i,
    {
        proof {
            lemma_sum_of_prefix(comparisons@, i + 1);
            assert(comparisons@.take(i + 1).drop_last() =~= comparisons@.take(i as int));
        }
        total += comparisons[i] as u64;
        i += 1;
    }
    assert(comparisons@.take(i as int) =~= comparisons@);
    total
}

/// The queries that are sent are the first ones of the file, unchanged and in
/// their order: as many as the limit allows, or all of them without a limit.
/// Only where none is left are they refused.
pub proof fn the_first_queries_are_sent(
    queries: Vec<Vec<u32>>,
    limit: Option<usize>,
    r: Result<Vec<Vec<u32>>, &'static str>,
)
    requires
        call_ensures(select_queries, (queries, limit), r),
    ensures
        r is Err <==> queries@.len() == 0 || limit == Some(0usize),
        r matches Err(e) ==> e@ == "no queries to send"@,
        r matches Ok(kept) ==> {
            &&& limit is None ==> kept@.len() == queries@.len()
            &&& limit matches Some(n) ==> kept@.len() == if n < queries@.len() {
                n as nat
            } else {
                queries@.len()
            }
            &&& forall|i: int| 0 <= i < kept@.len() ==> #[trigger] kept@[i] == queries@[i]
        },
{
}

/// Requests go to the server's URL, without the slashes at its end, followed by
/// the path for one query or for a batch.
pub proof fn requests_go_to_the_server(args: Args, url: String)
    requires
        call_ensures(Args::url, (&args,), url),
    ensures
        exists|n: int|
            {
                &&& 0 <= n <= args.server@.len()
                &&& forall|i: int| n <= i < args.server@.len() ==> args.server@[i] == '/'
                &&& n > 0 ==> args.server@[n - 1] != '/'
                &&& args.batch ==> url@ == #[trigger] args.server@.take(n) + "/search/batch"@
                &&& !args.batch ==> url@ == args.server@.take(n) + "/search"@
            },
{
    let n = without_trailing_slashes(args.server@).len() as int;
    slashes_are_cut_off(args.server@);
    assert(url@ == args.server@.take(n) + if args.batch {
        "/search/batch"@
    } else {
        "/search"@
    });
}

/// A request holds the query that it is for, and every parameter of the command
/// line in its own place.
pub proof fn requests_carry_the_parameters(
    args: Args,
    query: Vec<u32>,
    queries: Vec<Vec<u32>>,
    one: SearchRequest,
    all: BatchRequest,
)
    requires
        call_ensures(Args::search_request, (&args, query), one),
        call_ensures(Args::batch_request, (&args, queries), all),
    ensures
        one.query@ == query@,
        one.k == Some(args.k) && all.k == Some(args.k),
        one.search_list == Some(args.search_list) && all.search_list == Some(args.search_list),
        one.beam_width == Some(args.beam_width) && all.beam_width == Some(args.beam_width),
        one.flat == Some(args.flat) && all.flat == Some(args.flat),
        all.queries@.len() == queries@.len(),
        forall|i: int| 0 <= i < queries@.len() ==> #[trigger] all.queries@[i]@ == queries@[i]@,
{
}

/// Answers are printed one by one just when a single thread asks and nobody
/// wants quiet.
pub proof fn answers_are_printed_for_one_thread(args: Args, v: bool)
    requires
        call_ensures(Args::verbose, (&args,), v),
    ensures
        args.quiet ==> !v,
        args.concurrency != 1 ==> !v,
        args.concurrency == 1 && !args.quiet ==> v,
{
}

/// A response is taken just when its status is one of the two hundreds. Of any
/// other the user is told the status and the text, without the white space
/// around it.
pub proof fn refusals_tell_status_and_text(
    status: u16,
    text: &str,
    r: Option<String>,
    success: bool,
    told: String,
)
    requires
        call_ensures(refusal, (status, text), r),
        call_ensures(is_success, (status,), success),
        call_ensures(http_error, (status, text), told),
    ensures
        success <==> 200 <= status <= 299,
        r is None <==> success,
        r matches Some(s) ==> s@ == told@,
        exists|i: int, j: int|
            {
                &&& 0 <= i <= j <= text@.len()
                &&& told@ == "HTTP "@ + decimal(status as nat) + ": "@ + #[trigger] text@.subrange(
                    i,
                    j,
                )
                &&& forall|k: int| 0 <= k < i || j <= k < text@.len() ==> is_white_space(text@[k])
                &&& i < j ==> !is_white_space(text@[i]) && !is_white_space(text@[j - 1])
            },
{
    white_space_is_cut_off(text@);
    let (i, j) = choose|i: int, j: int|
        {
            &&& 0 <= i <= j <= text@.len()
            &&& trimmed(text@) == #[trigger] text@.subrange(i, j)
            &&& forall|k: int| 0 <= k < i || j <= k < text@.len() ==> is_white_space(text@[k])
            &&& i < j ==> !is_white_space(text@[i]) && !is_white_space(text@[j - 1])
        };
    assert(told@ == "HTTP "@ + decimal(status as nat) + ": "@ + text@.subrange(i, j));
}

/// The preview shows the ids of the neighbours in their order, no more than
/// five of them, and tells of more just when some are left out.
pub proof fn previews_show_the_nearest(neighbors: Vec<Neighbor>, ids: Vec<u32>, more: bool)
    requires
        call_ensures(preview, (&neighbors,), (ids, more)),
    ensures
        ids@.len() <= 5 && ids@.len() <= neighbors@.len(),
        ids@.len() < 5 ==> ids@.len() == neighbors@.len(),
        forall|i: int| 0 <= i < ids@.len() ==> #[trigger] ids@[i] == neighbors@[i].id,
        more <==> ids@.len() < neighbors@.len(),
{
}

proof fn lemma_sum_is_the_fold(values: Seq<u32>)
    ensures
        sum(values) == values.fold_left(0int, |total: int, c: u32| total + c),
    decreases values.len(),
{
    reveal_with_fuel(Seq::fold_left, 2);
    if values.len() > 0 {
        lemma_sum_is_the_fold(values.drop_last());
    }
}

/// The comparisons of a batch are those of all its searches, added up.
pub proof fn comparisons_are_added_up(comparisons: Vec<u32>, total: u64)
    requires
        call_ensures(total_comparisons, (&comparisons,), total),
    ensures
        total == comparisons@.fold_left(0int, |total: int, c: u32| total + c),
{
    lemma_sum_is_the_fold(comparisons@);
}

/// One search more adds its own comparisons and leaves the others counted.
pub proof fn one_search_more_adds_its_comparisons(values: Seq<u32>, c: u32)
    ensures
        sum(Seq::empty()) == 0,
        sum(values.push(c)) == sum(values) + c,
{
    assert(values.push(c).drop_last() =~= values);
}

} // verus!
