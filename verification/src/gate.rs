//! The two gates in front of the scrape pipeline, and the errors the
//! pipeline surfaces.
//!
//! The feature check comes first: a deployment that has not enabled
//! the metrics feature must not even confirm that the endpoint exists by
//! answering with an authorization error.  Only then is the caller's access
//! scope examined; reading operational metrics requires a credential that
//! covers every index.

use vstd::prelude::*;
use vstd::string::StringExecFns;

verus! {

/// A capability object recording whether the calling principal may read
/// data for every index of the service.
pub struct AccessFilter {
    pub all_indexes_authorized: bool,
}

impl AccessFilter {
    /// True when the filter grants visibility over all indexes.
    pub fn covers_all_indexes(&self) -> (r: bool)
        ensures
            r == self.all_indexes_authorized,
    {
        self.all_indexes_authorized
    }
}

/// Why a scrape request was refused.
#[derive(Debug)]
pub enum MetricsError {
    /// The metrics feature is not enabled for this deployment.
    FeatureDisabled,
    /// The credential is scoped to a subset of the indexes.
    AccessDenied,
    /// A subsystem failed while its statistics were being retrieved; the
    /// message is the origin subsystem's own.
    Aggregation { message: String },
}

/// The message of a refusal because the feature is disabled.
pub open spec fn spec_feature_disabled_message() -> Seq<char> {
    "Getting metrics requires enabling the `metrics` experimental feature."@
}

/// The guidance appended to an invalid-credential message.
pub open spec fn spec_access_denied_appendix() -> Seq<char> {
    " The API key for the `/metrics` route must allow access to all indexes."@
}

/// The message of a refusal for want of all-index scope.
pub open spec fn spec_access_denied_message() -> Seq<char> {
    "The provided API key is invalid."@ + spec_access_denied_appendix()
}

/// The exact text every access-denied message must end with.
pub open spec fn spec_required_suffix() -> Seq<char> {
    "The API key for the `/metrics` route must allow access to all indexes."@
}

/// The message of an error.
pub open spec fn spec_message(e: MetricsError) -> Seq<char> {
    match e {
        MetricsError::FeatureDisabled => spec_feature_disabled_message(),
        MetricsError::AccessDenied => spec_access_denied_message(),
        MetricsError::Aggregation { message } => message@,
    }
}

impl MetricsError {
    /// The human-readable message of this error.
    pub fn message(&self) -> (r: String)
        ensures
            r@ == spec_message(*self),
    {
        match self {
            MetricsError::FeatureDisabled => String::from_str(
                "Getting metrics requires enabling the `metrics` experimental feature.",
            ),
            MetricsError::AccessDenied => {
                let mut s = String::from_str("The provided API key is invalid.");
                s.append(
                    " The API key for the `/metrics` route must allow access to all indexes.",
                );
                s
            },
            MetricsError::Aggregation { message } => message.clone(),
        }
    }
}

/// The access-denied message ends with the exact required guidance text.
pub proof fn lemma_access_denied_message_ends_with_suffix()
    ensures
        spec_access_denied_message().len() >= spec_required_suffix().len(),
        spec_access_denied_message().subrange(
            spec_access_denied_message().len() - spec_required_suffix().len(),
            spec_access_denied_message().len() as int,
        ) == spec_required_suffix(),
{
    reveal_strlit("The provided API key is invalid.");
    reveal_strlit(" The API key for the `/metrics` route must allow access to all indexes.");
    reveal_strlit("The API key for the `/metrics` route must allow access to all indexes.");
    assert(spec_access_denied_message().subrange(
        spec_access_denied_message().len() - spec_required_suffix().len(),
        spec_access_denied_message().len() as int,
    ) =~= spec_required_suffix());
}

/// The guard in front of the aggregator: the feature check first, then the
/// access-scope gate.  Pure: no subsystem is touched.
pub fn check_metrics_access(feature_enabled: bool, filter: &AccessFilter) -> (r: Result<
    (),
    MetricsError,
>)
    ensures
        !feature_enabled ==> r == Err::<(), MetricsError>(MetricsError::FeatureDisabled),
        feature_enabled && !filter.all_indexes_authorized ==> r == Err::<(), MetricsError>(
            MetricsError::AccessDenied,
        ),
        feature_enabled && filter.all_indexes_authorized ==> r == Ok::<(), MetricsError>(()),
{
    if !feature_enabled {
        Err(MetricsError::FeatureDisabled)
    } else if !filter.covers_all_indexes() {
        Err(MetricsError::AccessDenied)
    } else {
        Ok(())
    }
}

} // verus!
