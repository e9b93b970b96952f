//! The server's configuration, and the search parameters that it gives to a
//! request.

use crate::inputs::{DataType, SimilarityMeasure};
use crate::loader::{load_plan, LoadPlan};
use diskann_disk::data_model::CachingStrategy;
use diskann_vector::distance::Metric;
use vstd::prelude::*;

verus! {

/// The server's configuration.
#[derive(Debug)]
pub struct ServeConfig {
    /// Prefix of the index files.
    pub load_path: String,
    /// Element type of the index.
    pub data_type: DataType,
    /// Distance measure that the index was built with.
    pub distance: SimilarityMeasure,
    /// Bind address.
    pub addr: String,
    /// Worker threads.
    pub workers: usize,
    /// How many requests may wait.
    pub queue_capacity: usize,
    /// How many graph nodes to keep in memory.
    pub num_nodes_to_cache: Option<usize>,
    /// Cap on I/O operations per query.
    pub search_io_limit: Option<usize>,
    /// Parameters of a search that does not give its own.
    pub defaults: SearchDefaults,
}

/// The bind address of a configuration that names none.
pub fn default_addr() -> (s: String)
    ensures
        s@ == "0.0.0.0:8080"@,
{
    "0.0.0.0:8080".to_owned()
}

/// The number of workers of a configuration that gives none.
pub fn default_workers() -> (n: usize)
    ensures
        n == 8,
{
    8
}

/// The queue capacity of a configuration that gives none.
pub fn default_queue() -> (n: usize)
    ensures
        n == 256,
{
    256
}

/// Parameters of a search that does not give its own.
#[derive(Debug, Clone, Copy)]
pub struct SearchDefaults {
    /// Neighbours to return.
    pub k: u32,
    /// Search-list size.
    pub search_list: u32,
    /// Beam width.
    pub beam_width: usize,
    /// Whether to search by brute force.
    pub flat: bool,
}

/// Neighbours to return, where the configuration gives no number.
pub fn d_k() -> (n: u32)
    ensures
        n == 10,
{
    10
}

/// Search-list size, where the configuration gives none.
pub fn d_l() -> (n: u32)
    ensures
        n == 100,
{
    100
}

/// Beam width, where the configuration gives none.
pub fn d_beam() -> (n: usize)
    ensures
        n == 4,
{
    4
}

/// The defaults of a configuration that gives none.
pub open spec fn built_in_defaults() -> SearchDefaults {
    SearchDefaults { k: 10, search_list: 100, beam_width: 4, flat: false }
}

impl Default for SearchDefaults {
    fn default() -> (d: Self)
        ensures
            d == built_in_defaults(),
    {
        SearchDefaults { k: d_k(), search_list: d_l(), beam_width: d_beam(), flat: false }
    }
}

/// The parameters of one search.
#[derive(Debug, Clone, Copy, PartialEq, Eq, Structural)]
pub struct Params {
    /// Neighbours to return.
    pub k: u32,
    /// Search-list size.
    pub l: u32,
    /// Beam width.
    pub beam: usize,
    /// Whether to search by brute force.
    pub flat: bool,
}

/// `given`, or `default` where nothing is given.
pub open spec fn given_or<T>(given: Option<T>, default: T) -> T {
    match given {
        Some(x) => x,
        None => default,
    }
}

impl SearchDefaults {
    /// What a request gives, completed with the defaults.
    pub open spec fn completed(
        self,
        k: Option<u32>,
        l: Option<u32>,
        beam: Option<usize>,
        flat: Option<bool>,
    ) -> Params {
        Params {
            k: given_or(k, self.k),
            l: given_or(l, self.search_list),
            beam: given_or(beam, self.beam_width),
            flat: given_or(flat, self.flat),
        }
    }

    /// Completes what a request gives with the defaults.
    pub fn resolve(
        &self,
        k: Option<u32>,
        l: Option<u32>,
        beam: Option<usize>,
        flat: Option<bool>,
    ) -> (p: Params)
        ensures
            p == self.completed(k, l, beam, flat),
    {
        Params {
            k: k.unwrap_or(self.k),
            l: l.unwrap_or(self.search_list),
            beam: beam.unwrap_or(self.beam_width),
            flat: flat.unwrap_or(self.flat),
        }
    }
}

impl ServeConfig {
    /// Settles how the configured index is loaded. Only indexes of `Float32`
    /// vectors can be; for the others the error says so.
    pub fn load_plan(&self) -> (r: Result<LoadPlan, String>)
        ensures
            r is Ok <==> self.data_type == DataType::Float32,
            r matches Ok(plan) ==> plan.is_for(
                self.load_path@,
                self.distance,
                self.workers,
                self.search_io_limit,
                self.num_nodes_to_cache,
            ),
            r matches Err(e) ==> e@ == "the server only implements Float32 (got "@
                + self.data_type.in_words() + ")"@,
    {
        match self.data_type {
            DataType::Float32 => Ok(
                load_plan(
                    self.load_path.as_str(),
                    self.distance,
                    self.workers,
                    self.search_io_limit,
                    self.num_nodes_to_cache,
                ),
            ),
            other => {
                let mut e = "the server only implements Float32 (got ".to_owned();
                e.append(other.name());
                e.append(")");
                Err(e)
            },
        }
    }
}

/// A request that gives every parameter is searched with just those, whatever
/// the defaults are.
pub proof fn given_parameters_stand(d: SearchDefaults, k: u32, l: u32, beam: usize, flat: bool)
    ensures
        d.completed(Some(k), Some(l), Some(beam), Some(flat)) == (Params { k, l, beam, flat }),
{
}

/// A request that gives no parameter is searched with the defaults.
pub proof fn omitted_parameters_fall_back(d: SearchDefaults)
    ensures
        d.completed(None, None, None, None) == (Params {
            k: d.k,
            l: d.search_list,
            beam: d.beam_width,
            flat: d.flat,
        }),
{
}

/// Without configured defaults, a request that gives no parameter has a search
/// list at least as long as the number of neighbours.
pub proof fn built_in_defaults_are_sound()
    ensures
        built_in_defaults().completed(None, None, None, None).l >= built_in_defaults().completed(
            None,
            None,
            None,
            None,
        ).k,
{
}

/// Each parameter is completed on its own: what the request gives for it stands,
/// and what it omits comes from the defaults, whatever is given for the others.
pub proof fn parameters_are_completed_one_by_one(
    d: SearchDefaults,
    k: Option<u32>,
    l: Option<u32>,
    beam: Option<usize>,
    flat: Option<bool>,
    p: Params,
)
    requires
        call_ensures(SearchDefaults::resolve, (&d, k, l, beam, flat), p),
    ensures
        k matches Some(x) ==> p.k == x,
        k is None ==> p.k == d.k,
        l matches Some(x) ==> p.l == x,
        l is None ==> p.l == d.search_list,
        beam matches Some(x) ==> p.beam == x,
        beam is None ==> p.beam == d.beam_width,
        flat matches Some(x) ==> p.flat == x,
        flat is None ==> p.flat == d.flat,
{
}

/// A change to one parameter of a request, or to one default, changes no other
/// parameter of the search.
pub proof fn parameters_do_not_mix(
    d: SearchDefaults,
    e: SearchDefaults,
    k: Option<u32>,
    l: Option<u32>,
    beam: Option<usize>,
    flat: Option<bool>,
    other_k: Option<u32>,
    other_l: Option<u32>,
    other_beam: Option<usize>,
    other_flat: Option<bool>,
    p: Params,
    q: Params,
)
    requires
        call_ensures(SearchDefaults::resolve, (&d, k, l, beam, flat), p),
        call_ensures(SearchDefaults::resolve, (&e, other_k, other_l, other_beam, other_flat), q),
    ensures
        k == other_k && d.k == e.k ==> p.k == q.k,
        l == other_l && d.search_list == e.search_list ==> p.l == q.l,
        beam == other_beam && d.beam_width == e.beam_width ==> p.beam == q.beam,
        flat == other_flat && d.flat == e.flat ==> p.flat == q.flat,
{
}

/// What a configuration leaves out: port 8080 on every address, eight workers,
/// room for 256 requests, and searches by the graph for ten neighbours with a
/// list of a hundred and beams of four.
pub proof fn what_is_not_configured(
    addr: String,
    workers: usize,
    queue: usize,
    k: u32,
    l: u32,
    beam: usize,
    d: SearchDefaults,
)
    requires
        call_ensures(default_addr, (), addr),
        call_ensures(default_workers, (), workers),
        call_ensures(default_queue, (), queue),
        call_ensures(d_k, (), k),
        call_ensures(d_l, (), l),
        call_ensures(d_beam, (), beam),
        call_ensures(<SearchDefaults as Default>::default, (), d),
    ensures
        addr@ == "0.0.0.0:8080"@,
        workers == 8,
        queue == 256,
        k == 10 && d.k == k,
        l == 100 && d.search_list == l,
        beam == 4 && d.beam_width == beam,
        !d.flat,
{
}

/// A configured index is loaded just when its elements are of the type
/// `Float32`: from the three files with the configured prefix, under the
/// configured measure, with as many threads as there are workers, and with the
/// configured cache and limit. Any other type is refused by its name.
pub proof fn configured_index_is_loaded(config: ServeConfig, r: Result<LoadPlan, String>)
    requires
        call_ensures(ServeConfig::load_plan, (&config,), r),
    ensures
        r is Ok <==> config.data_type is Float32,
        r matches Ok(plan) ==> {
            &&& plan.pivot_path@ == config.load_path@ + "_pq_pivots.bin"@
            &&& plan.pq_data_path@ == config.load_path@ + "_pq_compressed.bin"@
            &&& plan.disk_index_path@ == config.load_path@ + "_disk.index"@
            &&& plan.num_threads == config.workers
            &&& config.search_io_limit matches Some(n) ==> plan.search_io_limit == n
            &&& config.search_io_limit is None ==> plan.search_io_limit == usize::MAX
            &&& config.num_nodes_to_cache matches Some(n) ==> plan.caching_strategy
                == CachingStrategy::StaticCacheWithBfsNodes(n)
            &&& config.num_nodes_to_cache is None ==> plan.caching_strategy == CachingStrategy::None
            &&& config.distance is SquaredL2 <==> plan.metric == Metric::L2
            &&& config.distance is InnerProduct <==> plan.metric == Metric::InnerProduct
            &&& config.distance is Cosine <==> plan.metric == Metric::Cosine
            &&& config.distance is CosineNormalized <==> plan.metric == Metric::CosineNormalized
        },
        r matches Err(e) ==> {
            &&& config.data_type is Float16 ==> e@ == "the server only implements Float32 (got "@
                + "Float16"@ + ")"@
            &&& config.data_type is UInt8 ==> e@ == "the server only implements Float32 (got "@
                + "UInt8"@ + ")"@
            &&& config.data_type is Int8 ==> e@ == "the server only implements Float32 (got "@
                + "Int8"@ + ")"@
        },
{
}

} // verus!
