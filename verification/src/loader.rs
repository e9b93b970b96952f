//! What it takes to load a disk index: its files, its cache and its limits.

use crate::inputs::{metric_of, SimilarityMeasure};
use diskann_disk::data_model::CachingStrategy;
use diskann_providers::storage::{get_compressed_pq_file, get_disk_index_file, get_pq_pivot_file};
use diskann_vector::distance::Metric;
use vstd::prelude::*;

verus! {

/// `diskann_disk::data_model::CachingStrategy`, an enum of two public variants,
/// which are used as they are declared there.
#[verifier::external_type_specification]
pub struct ExCachingStrategy(diskann_disk::data_model::CachingStrategy);

/// `diskann_providers::storage::get_pq_pivot_file`: the prefix, followed by
/// `_pq_pivots.bin`.
pub assume_specification[ diskann_providers::storage::get_pq_pivot_file ](
    index_path_prefix: &str,
) -> (path: String)
    ensures
        path@ == index_path_prefix@ + "_pq_pivots.bin"@,
;

/// `diskann_providers::storage::get_compressed_pq_file`: the prefix, followed
/// by `_pq_compressed.bin`.
pub assume_specification[ diskann_providers::storage::get_compressed_pq_file ](
    index_path_prefix: &str,
) -> (path: String)
    ensures
        path@ == index_path_prefix@ + "_pq_compressed.bin"@,
;

/// `diskann_providers::storage::get_disk_index_file`: the prefix, followed by
/// `_disk.index`.
pub assume_specification[ diskann_providers::storage::get_disk_index_file ](
    index_path_prefix: &str,
) -> (path: String)
    ensures
        path@ == index_path_prefix@ + "_disk.index"@,
;

/// What a searcher is built from.
pub struct LoadPlan {
    /// The PQ pivot table.
    pub pivot_path: String,
    /// The PQ-compressed vectors.
    pub pq_data_path: String,
    /// The graph and the full-precision vectors.
    pub disk_index_path: String,
    /// Which graph nodes are kept in memory.
    pub caching_strategy: CachingStrategy,
    /// The searcher's concurrency hint.
    pub num_threads: usize,
    /// The cap on I/O operations per query.
    pub search_io_limit: usize,
    /// The metric of the index.
    pub metric: Metric,
}

/// A loaded index: what serving it takes besides the searcher itself.
#[derive(Debug, Clone, Copy)]
pub struct LoadedIndex {
    pub num_points: usize,
    pub dims: usize,
    pub metric: Metric,
}

/// The cap on I/O operations that a configuration asks for; without one there
/// is no bound but the machine's.
pub open spec fn io_limit(configured: Option<usize>) -> usize {
    match configured {
        Some(n) => n,
        None => usize::MAX,
    }
}

/// The cache that a configuration asks for.
pub open spec fn cache_of(num_nodes: Option<usize>) -> CachingStrategy {
    match num_nodes {
        Some(n) => CachingStrategy::StaticCacheWithBfsNodes(n),
        None => CachingStrategy::None,
    }
}

impl LoadPlan {
    /// Whether this is how the index with the prefix `load_path` is loaded.
    pub open spec fn is_for(
        self,
        load_path: Seq<char>,
        distance: SimilarityMeasure,
        num_threads: usize,
        search_io_limit: Option<usize>,
        num_nodes_to_cache: Option<usize>,
    ) -> bool {
        &&& self.pivot_path@ == load_path + "_pq_pivots.bin"@
        &&& self.pq_data_path@ == load_path + "_pq_compressed.bin"@
        &&& self.disk_index_path@ == load_path + "_disk.index"@
        &&& self.caching_strategy == cache_of(num_nodes_to_cache)
        &&& self.num_threads == num_threads
        &&& self.search_io_limit == io_limit(search_io_limit)
        &&& self.metric == metric_of(distance)
    }

    /// The index that was loaded, with the sizes found in its files.
    pub fn loaded(&self, num_points: usize, dims: usize) -> (index: LoadedIndex)
        ensures
            index == (LoadedIndex { num_points, dims, metric: self.metric }),
    {
        LoadedIndex { num_points, dims, metric: self.metric }
    }
}

/// Finds the three files of the index with the prefix `load_path`, and settles
/// how the searcher over them is built.
pub fn load_plan(
    load_path: &str,
    distance: SimilarityMeasure,
    num_threads: usize,
    search_io_limit: Option<usize>,
    num_nodes_to_cache: Option<usize>,
) -> (plan: LoadPlan)
    ensures
        plan.is_for(load_path@, distance, num_threads, search_io_limit, num_nodes_to_cache),
{
    LoadPlan {
        pivot_path: get_pq_pivot_file(load_path),
        pq_data_path: get_compressed_pq_file(load_path),
        disk_index_path: get_disk_index_file(load_path),
        caching_strategy: match num_nodes_to_cache {
            Some(n) => CachingStrategy::StaticCacheWithBfsNodes(n),
            None => CachingStrategy::None,
        },
        num_threads,
        search_io_limit: search_io_limit.unwrap_or(usize::MAX),
        metric: Metric::from(distance),
    }
}

/// The three files of an index are three different files.
pub proof fn index_files_differ(prefix: Seq<char>)
    ensures
        prefix + "_pq_pivots.bin"@ != prefix + "_pq_compressed.bin"@,
        prefix + "_pq_pivots.bin"@ != prefix + "_disk.index"@,
        prefix + "_pq_compressed.bin"@ != prefix + "_disk.index"@,
{
    reveal_strlit("_pq_pivots.bin");
    reveal_strlit("_pq_compressed.bin");
    reveal_strlit("_disk.index");
    let p = prefix + "_pq_pivots.bin"@;
    let c = prefix + "_pq_compressed.bin"@;
    let d = prefix + "_disk.index"@;
    assert(p.len() == prefix.len() + 14);
    assert(c.len() == prefix.len() + 18);
    assert(d.len() == prefix.len() + 11);
}

/// An index is loaded from the three files with its prefix. The cache and the
/// limit are those that are asked for; without them nothing is cached, and
/// nothing but the machine bounds the reads of a query.
pub proof fn plans_follow_the_request(
    load_path: &str,
    distance: SimilarityMeasure,
    num_threads: usize,
    search_io_limit: Option<usize>,
    num_nodes_to_cache: Option<usize>,
    plan: LoadPlan,
)
    requires
        call_ensures(
            load_plan,
            (load_path, distance, num_threads, search_io_limit, num_nodes_to_cache),
            plan,
        ),
    ensures
        plan.pivot_path@ == load_path@ + "_pq_pivots.bin"@,
        plan.pq_data_path@ == load_path@ + "_pq_compressed.bin"@,
        plan.disk_index_path@ == load_path@ + "_disk.index"@,
        plan.num_threads == num_threads,
        search_io_limit matches Some(n) ==> plan.search_io_limit == n,
        search_io_limit is None ==> plan.search_io_limit == usize::MAX,
        num_nodes_to_cache matches Some(n) ==> plan.caching_strategy
            == CachingStrategy::StaticCacheWithBfsNodes(n),
        num_nodes_to_cache is None ==> plan.caching_strategy == CachingStrategy::None,
        distance is SquaredL2 <==> plan.metric == Metric::L2,
        distance is InnerProduct <==> plan.metric == Metric::InnerProduct,
        distance is Cosine <==> plan.metric == Metric::Cosine,
        distance is CosineNormalized <==> plan.metric == Metric::CosineNormalized,
{
}

/// What was loaded has the sizes that were found, under the plan's metric.
pub proof fn loaded_index_has_its_sizes(
    plan: LoadPlan,
    num_points: usize,
    dims: usize,
    index: LoadedIndex,
)
    requires
        call_ensures(LoadPlan::loaded, (&plan, num_points, dims), index),
    ensures
        index.num_points == num_points,
        index.dims == dims,
        index.metric == plan.metric,
{
}

} // verus!
