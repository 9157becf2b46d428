//! The records that the API returns to the client.
use vstd::prelude::*;

verus! {

/// A project.
#[derive(Debug, Clone, PartialEq)]
pub struct Project {
    pub id: String,
    pub slug: String,
    pub name: String,
    pub description: Option<String>,
    pub public: bool,
}

/// A project with the dimensions of its measurements.
#[derive(Debug, Clone, PartialEq)]
pub struct ProjectDetails {
    pub id: String,
    pub slug: String,
    pub name: String,
    pub description: Option<String>,
    pub public: bool,
    pub branches: Vec<Branch>,
    pub testbeds: Vec<Testbed>,
    pub benchmarks: Vec<Benchmark>,
    pub measures: Vec<Measure>,
}

/// A branch of a project.
#[derive(Debug, Clone, PartialEq)]
pub struct Branch {
    pub id: String,
    pub name: String,
}

/// A machine or environment that benchmarks run on.
#[derive(Debug, Clone, PartialEq)]
pub struct Testbed {
    pub id: String,
    pub name: String,
}

/// A benchmark of a project.
#[derive(Debug, Clone, PartialEq)]
pub struct Benchmark {
    pub id: String,
    pub name: String,
}

/// A quantity that benchmarks measure, with its units.
#[derive(Debug, Clone, PartialEq)]
pub struct Measure {
    pub id: String,
    pub name: String,
    pub units: Option<String>,
}

/// Where to upload a flamegraph, and under which storage path to register it.
#[derive(Debug, Clone, PartialEq)]
pub struct FlamegraphUploadUrl {
    pub signed_url: String,
    pub token: String,
    pub storage_path: String,
}

/// A flamegraph registered with a report.
#[derive(Debug, Clone, PartialEq)]
pub struct Flamegraph {
    pub id: String,
    pub storage_path: String,
    pub file_name: String,
    pub file_size: i64,
}

} // verus!
