//! Settings of a CTA strategy research: where its results go, and the parameters
//! of a replay and of a backtest.
use vstd::prelude::*;
use vstd::hash_map::StringHashMap;

verus! {

/// A strategy research: its name, the directory of its results, and further settings.
pub struct CtaResearch {
    pub strategy_name: String,
    pub results_path: std::path::PathBuf,
    pub kwargs: StringHashMap<String>,
}

/// The parameters of a replay of one symbol.
#[derive(Debug, Clone)]
pub struct ReplayParams {
    pub symbol: String,
    pub start_date: String,
    pub end_date: String,
    pub refresh: bool,
}

/// The parameters of a backtest over several symbols.
#[derive(Debug, Clone)]
pub struct BacktestParams {
    pub symbols: Vec<String>,
    pub start_date: String,
    pub end_date: String,
    pub max_workers: usize,
}

impl CtaResearch {
    /// A research with the given name, results directory and settings; the
    /// directory itself is created by the caller that owns the file system.
    pub fn new(strategy_name: String, results_path: std::path::PathBuf, kwargs: StringHashMap<String>) -> (r: CtaResearch)
        ensures
            r.strategy_name@ == strategy_name@,
            r.results_path == results_path,
            r.kwargs@ == kwargs@,
    {
        CtaResearch { strategy_name, results_path, kwargs }
    }
}

} // verus!
