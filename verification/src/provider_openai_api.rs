//! The provider of OpenAI API usage telemetry.
use vstd::prelude::*;

use crate::domain::UsageFamily;

verus! {

#[derive(Debug, Clone, Copy, PartialEq, Eq, Structural)]
pub struct OpenAiApiUsageProvider;

impl OpenAiApiUsageProvider {
    /// API usage is never reported as a subscription quota.
    pub fn usage_family(&self) -> (r: UsageFamily)
        ensures
            r == UsageFamily::Api,
            r != UsageFamily::SubscriptionQuota,
    {
        UsageFamily::Api
    }

    pub fn provider_name(&self) -> (r: &'static str)
        ensures
            r@ == "openai_api_usage"@,
    {
        "openai_api_usage"
    }
}

} // verus!
