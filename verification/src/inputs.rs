//! The two choices of a server's configuration: distance measure and element
//! type.

use diskann_vector::distance::Metric;
use vstd::prelude::*;

verus! {

/// `diskann_vector::distance::Metric`, an enum of four variants without fields,
/// which are used as they are declared there.
#[verifier::external_type_specification]
pub struct ExMetric(diskann_vector::distance::Metric);

/// Distance measure, as the configuration names it.
#[derive(Debug, Clone, Copy)]
pub enum SimilarityMeasure {
    SquaredL2,
    InnerProduct,
    Cosine,
    CosineNormalized,
}

impl vstd::std_specs::convert::FromSpecImpl<SimilarityMeasure> for Metric {
    open spec fn obeys_from_spec() -> bool {
        true
    }

    open spec fn from_spec(value: SimilarityMeasure) -> Self {
        match value {
            SimilarityMeasure::SquaredL2 => Metric::L2,
            SimilarityMeasure::InnerProduct => Metric::InnerProduct,
            SimilarityMeasure::Cosine => Metric::Cosine,
            SimilarityMeasure::CosineNormalized => Metric::CosineNormalized,
        }
    }
}

impl From<SimilarityMeasure> for Metric {
    fn from(value: SimilarityMeasure) -> (metric: Self) {
        match value {
            SimilarityMeasure::SquaredL2 => Metric::L2,
            SimilarityMeasure::InnerProduct => Metric::InnerProduct,
            SimilarityMeasure::Cosine => Metric::Cosine,
            SimilarityMeasure::CosineNormalized => Metric::CosineNormalized,
        }
    }
}

/// The metric that a measure stands for.
pub open spec fn metric_of(measure: SimilarityMeasure) -> Metric {
    <Metric as vstd::std_specs::convert::FromSpec<SimilarityMeasure>>::from_spec(measure)
}

/// Different measures stand for different metrics.
pub proof fn measures_differ_in_metric(a: SimilarityMeasure, b: SimilarityMeasure)
    requires
        metric_of(a) == metric_of(b),
    ensures
        a == b,
{
}

/// The name under which a metric is reported.
pub open spec fn name_of_metric(m: Metric) -> Seq<char> {
    match m {
        Metric::L2 => "L2"@,
        Metric::Cosine => "Cosine"@,
        Metric::CosineNormalized => "CosineNormalized"@,
        Metric::InnerProduct => "InnerProduct"@,
    }
}

/// The name under which a metric is reported.
pub fn metric_name(m: Metric) -> (s: &'static str)
    ensures
        s@ == name_of_metric(m),
{
    match m {
        Metric::L2 => "L2",
        Metric::Cosine => "Cosine",
        Metric::CosineNormalized => "CosineNormalized",
        Metric::InnerProduct => "InnerProduct",
    }
}

/// Vector element type of the index.
#[derive(Debug, Clone, Copy, PartialEq, Eq, Structural)]
pub enum DataType {
    Float32,
    Float16,
    UInt8,
    Int8,
}

impl DataType {
    /// The type's name.
    pub open spec fn in_words(self) -> Seq<char> {
        match self {
            DataType::Float32 => "Float32"@,
            DataType::Float16 => "Float16"@,
            DataType::UInt8 => "UInt8"@,
            DataType::Int8 => "Int8"@,
        }
    }

    /// The type's name.
    pub fn name(self) -> (s: &'static str)
        ensures
            s@ == self.in_words(),
    {
        match self {
            DataType::Float32 => "Float32",
            DataType::Float16 => "Float16",
            DataType::UInt8 => "UInt8",
            DataType::Int8 => "Int8",
        }
    }
}

/// Each measure stands for the metric of its name.
pub proof fn measures_stand_for_their_metrics(measure: SimilarityMeasure, metric: Metric)
    requires
        call_ensures(<Metric as From<SimilarityMeasure>>::from, (measure,), metric),
    ensures
        measure is SquaredL2 <==> metric == Metric::L2,
        measure is InnerProduct <==> metric == Metric::InnerProduct,
        measure is Cosine <==> metric == Metric::Cosine,
        measure is CosineNormalized <==> metric == Metric::CosineNormalized,
        metric == metric_of(measure),
{
}

/// Metrics are reported under their names, and no two alike.
pub proof fn metrics_are_told_apart(m: Metric, s: &'static str, n: Metric, t: &'static str)
    requires
        call_ensures(metric_name, (m,), s),
        call_ensures(metric_name, (n,), t),
    ensures
        m == Metric::L2 ==> s@ == "L2"@,
        m == Metric::Cosine ==> s@ == "Cosine"@,
        m == Metric::CosineNormalized ==> s@ == "CosineNormalized"@,
        m == Metric::InnerProduct ==> s@ == "InnerProduct"@,
        s@ == t@ <==> m == n,
{
    reveal_strlit("L2");
    reveal_strlit("Cosine");
    reveal_strlit("CosineNormalized");
    reveal_strlit("InnerProduct");
    assert("L2"@.len() == 2 && "Cosine"@.len() == 6);
    assert("CosineNormalized"@.len() == 16 && "InnerProduct"@.len() == 12);
}

/// Element types are named by their names, and no two alike.
pub proof fn types_are_told_apart(a: DataType, s: &'static str, b: DataType, t: &'static str)
    requires
        call_ensures(DataType::name, (a,), s),
        call_ensures(DataType::name, (b,), t),
    ensures
        a is Float32 ==> s@ == "Float32"@,
        a is Float16 ==> s@ == "Float16"@,
        a is UInt8 ==> s@ == "UInt8"@,
        a is Int8 ==> s@ == "Int8"@,
        s@ == t@ <==> a == b,
{
    reveal_strlit("Float32");
    reveal_strlit("Float16");
    reveal_strlit("UInt8");
    reveal_strlit("Int8");
    assert("Float32"@[5] != "Float16"@[5]);
    assert("Float32"@.len() == 7 && "Float16"@.len() == 7);
    assert("UInt8"@.len() == 5 && "Int8"@.len() == 4);
}

} // verus!
