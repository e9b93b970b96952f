use diskann3_rest::config::{
    d_beam, d_k, d_l, default_addr, default_queue, default_workers, Params, SearchDefaults,
    ServeConfig,
};
use diskann3_rest::inputs::{metric_name, DataType, SimilarityMeasure};
use diskann3_rest::loader::load_plan;
use diskann_disk::data_model::CachingStrategy;
use diskann_vector::distance::Metric;

fn config(data_type: DataType) -> ServeConfig {
    ServeConfig {
        load_path: "sample_index_l50_r32".to_string(),
        data_type,
        distance: SimilarityMeasure::SquaredL2,
        addr: default_addr(),
        workers: 3,
        queue_capacity: default_queue(),
        num_nodes_to_cache: Some(500),
        search_io_limit: Some(64),
        defaults: SearchDefaults::default(),
    }
}

#[test]
fn measures_become_metrics() {
    assert_eq!(Metric::from(SimilarityMeasure::SquaredL2), Metric::L2);
    assert_eq!(Metric::from(SimilarityMeasure::InnerProduct), Metric::InnerProduct);
    assert_eq!(Metric::from(SimilarityMeasure::Cosine), Metric::Cosine);
    assert_eq!(Metric::from(SimilarityMeasure::CosineNormalized), Metric::CosineNormalized);
}

#[test]
fn metrics_have_names() {
    assert_eq!(metric_name(Metric::L2), "L2");
    assert_eq!(metric_name(Metric::Cosine), "Cosine");
    assert_eq!(metric_name(Metric::CosineNormalized), "CosineNormalized");
    assert_eq!(metric_name(Metric::InnerProduct), "InnerProduct");
}

#[test]
fn element_types_are_named_as_debug_names_them() {
    for t in [DataType::Float32, DataType::Float16, DataType::UInt8, DataType::Int8] {
        assert_eq!(t.name(), format!("{t:?}"));
    }
}

#[test]
fn an_index_is_three_files_with_one_prefix() {
    let p = load_plan("dir/idx", SimilarityMeasure::Cosine, 8, None, None);
    assert_eq!(p.pivot_path, "dir/idx_pq_pivots.bin");
    assert_eq!(p.pq_data_path, "dir/idx_pq_compressed.bin");
    assert_eq!(p.disk_index_path, "dir/idx_disk.index");
    assert_eq!(p.num_threads, 8);
    assert_eq!(p.metric, Metric::Cosine);
}

#[test]
fn without_a_limit_io_is_unbounded_and_nothing_is_cached() {
    let p = load_plan("i", SimilarityMeasure::SquaredL2, 1, None, None);
    assert_eq!(p.search_io_limit, usize::MAX);
    assert!(p.caching_strategy == CachingStrategy::None);
    let p = load_plan("i", SimilarityMeasure::SquaredL2, 1, Some(0), Some(0));
    assert_eq!(p.search_io_limit, 0);
    assert!(p.caching_strategy == CachingStrategy::StaticCacheWithBfsNodes(0));
}

#[test]
fn a_loaded_index_has_the_metric_of_its_plan() {
    let p = load_plan("i", SimilarityMeasure::InnerProduct, 1, None, None);
    let index = p.loaded(1000, 128);
    assert_eq!((index.num_points, index.dims), (1000, 128));
    assert_eq!(index.metric, Metric::InnerProduct);
}

#[test]
fn a_configuration_settles_how_its_index_is_loaded() {
    let p = config(DataType::Float32).load_plan().ok().unwrap();
    assert_eq!(p.pivot_path, "sample_index_l50_r32_pq_pivots.bin");
    assert_eq!(p.disk_index_path, "sample_index_l50_r32_disk.index");
    assert_eq!(p.pq_data_path, "sample_index_l50_r32_pq_compressed.bin");
    assert_eq!(p.num_threads, 3);
    assert_eq!(p.search_io_limit, 64);
    assert!(p.caching_strategy == CachingStrategy::StaticCacheWithBfsNodes(500));
    assert_eq!(p.metric, Metric::L2);
}

#[test]
fn only_float32_is_served() {
    for (t, name) in [
        (DataType::Float16, "Float16"),
        (DataType::UInt8, "UInt8"),
        (DataType::Int8, "Int8"),
    ] {
        let e = config(t).load_plan().err().unwrap();
        assert_eq!(e, format!("the server only implements Float32 (got {name})"));
    }
}

#[test]
fn configured_values_have_defaults() {
    assert_eq!(default_addr(), "0.0.0.0:8080");
    assert_eq!(default_workers(), 8);
    assert_eq!(default_queue(), 256);
    assert_eq!((d_k(), d_l(), d_beam()), (10, 100, 4));
    let d = SearchDefaults::default();
    assert_eq!((d.k, d.search_list, d.beam_width, d.flat), (10, 100, 4, false));
}

#[test]
fn requests_are_completed_with_the_defaults() {
    let d = SearchDefaults { k: 1, search_list: 2, beam_width: 3, flat: true };
    assert_eq!(d.resolve(None, None, None, None), Params { k: 1, l: 2, beam: 3, flat: true });
    assert_eq!(
        d.resolve(Some(9), Some(8), Some(7), Some(false)),
        Params { k: 9, l: 8, beam: 7, flat: false }
    );
    assert_eq!(d.resolve(None, Some(0), None, None), Params { k: 1, l: 0, beam: 3, flat: true });
}
