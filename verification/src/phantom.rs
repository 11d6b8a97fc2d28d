//! Settings and replies of the judging service that system bundles (metrics,
//! alerts and logs) are sent to.
use vstd::prelude::*;
use vstd::string::*;
use crate::text::{decimal, push_decimal};

verus! {

/// Judging service settings.
#[derive(Debug, Clone)]
pub struct PhantomGateConfig {
    /// Whether bundles are sent for judging.
    pub enabled: bool,
    /// Base URL of the service.
    pub base_url: String,
    /// Timeout of a request, in seconds.
    pub timeout_secs: u64,
    /// Directory where bundles are saved locally.
    pub bundle_dir: String,
}

impl Default for PhantomGateConfig {
    fn default() -> (r: Self)
        ensures
            !r.enabled,
            r.base_url@ == "http://localhost:8000"@,
            r.timeout_secs == 30,
            r.bundle_dir@ == "/tmp/phantom-bundles"@,
    {
        PhantomGateConfig {
            enabled: false,
            base_url: String::from_str("http://localhost:8000"),
            timeout_secs: 30,
            bundle_dir: String::from_str("/tmp/phantom-bundles"),
        }
    }
}

/// The service's judgment of a bundle.
#[derive(Debug, Clone, PartialEq, Eq)]
pub struct PhantomGateResult {
    /// Overall severity: "info", "warning" or "critical".
    pub severity: String,
    pub insights: Vec<String>,
    pub relevant_adrs: Vec<String>,
    pub recommendations: Vec<String>,
    /// Path of the locally saved bundle.
    pub bundle_file: String,
    /// Directory of the locally saved bundle.
    pub bundle_dir: String,
    pub notes: Vec<String>,
}

impl PhantomGateConfig {
    /// The URL that bundles are posted to.
    pub fn judge_url(&self) -> (r: String)
        ensures
            r@ == self.base_url@ + "/judge"@,
    {
        let mut url = self.base_url.clone();
        url.append("/judge");
        url
    }

    /// The file a bundle taken at `timestamp` is saved to.
    pub fn bundle_file_name(&self, timestamp: u64) -> (r: String)
        ensures
            r@ == self.bundle_dir@ + "/bundle-"@ + decimal(timestamp as nat) + ".json"@,
    {
        let mut name = self.bundle_dir.clone();
        name.append("/bundle-");
        push_decimal(&mut name, timestamp);
        name.append(".json");
        name
    }
}

impl PhantomGateResult {
    /// The judgment with the location of the locally saved bundle filled in.
    pub fn with_local_bundle(self, bundle_file: String, bundle_dir: String) -> (r: Self)
        ensures
            r.bundle_file == bundle_file,
            r.bundle_dir == bundle_dir,
            r.severity == self.severity,
            r.insights == self.insights,
            r.relevant_adrs == self.relevant_adrs,
            r.recommendations == self.recommendations,
            r.notes == self.notes,
    {
        PhantomGateResult { bundle_file, bundle_dir, ..self }
    }
}

} // verus!
