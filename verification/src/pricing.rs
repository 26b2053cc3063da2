//! Tiered prices per token, and the cost of a record.
//!
//! Money is counted in whole units of 1e-8 USD, so that every price of the
//! table is a whole number: a price of 1500 units per token is 15 USD per
//! million tokens.

use crate::ids::ModelId;
use crate::text::{lowercase, str_contains, text_contains, to_lowercase};
use crate::usage::{Usage, UsageEntry};
use vstd::prelude::*;
use vstd::std_specs::convert::FromSpecImpl;

verus! {

/// The prices of one model family, per token, by the role of the token.
#[derive(Debug, Clone, Copy, PartialEq, Eq, Structural)]
pub struct ModelPricing {
    /// Fresh input.
    pub input_cost_per_token: u16,
    /// Generated output.
    pub output_cost_per_token: u16,
    /// Cache write, kept for five minutes.
    pub cache_creation_input_token_cost: u16,
    /// Cache read.
    pub cache_read_input_token_cost: u16,
    /// Cache write, kept for one hour.
    pub cache_creation_1h_token_cost: u16,
}

/// The prices of the Opus family.
pub open spec fn opus_pricing() -> ModelPricing {
    ModelPricing {
        input_cost_per_token: 1500,
        output_cost_per_token: 7500,
        cache_creation_input_token_cost: 1875,
        cache_read_input_token_cost: 150,
        cache_creation_1h_token_cost: 3000,
    }
}

/// The prices of the Sonnet family.
pub open spec fn sonnet_pricing() -> ModelPricing {
    ModelPricing {
        input_cost_per_token: 300,
        output_cost_per_token: 1500,
        cache_creation_input_token_cost: 375,
        cache_read_input_token_cost: 30,
        cache_creation_1h_token_cost: 600,
    }
}

/// The prices of the Haiku family.
pub open spec fn haiku_pricing() -> ModelPricing {
    ModelPricing {
        input_cost_per_token: 80,
        output_cost_per_token: 400,
        cache_creation_input_token_cost: 100,
        cache_read_input_token_cost: 8,
        cache_creation_1h_token_cost: 160,
    }
}

/// The prices of a model that is not known: nothing is charged.
pub open spec fn zero_pricing() -> ModelPricing {
    ModelPricing {
        input_cost_per_token: 0,
        output_cost_per_token: 0,
        cache_creation_input_token_cost: 0,
        cache_read_input_token_cost: 0,
        cache_creation_1h_token_cost: 0,
    }
}

/// The prices for a model named by a lower-case text: the family whose
/// keyword the text contains, trying "opus",
/// then "sonnet", then "haiku"; nothing is charged where it contains none.
pub open spec fn pricing_of_lowercase(lower: Seq<char>) -> ModelPricing {
    if text_contains(lower, "opus"@) {
        opus_pricing()
    } else if text_contains(lower, "sonnet"@) {
        sonnet_pricing()
    } else if text_contains(lower, "haiku"@) {
        haiku_pricing()
    } else {
        zero_pricing()
    }
}

/// The prices of a model: those that the keywords in the lower-case form of
/// its text select.
pub open spec fn pricing_of(model: ModelId) -> ModelPricing {
    pricing_of_lowercase(lowercase(model@))
}

impl ModelPricing {
    /// The prices of the Opus family.
    pub fn opus() -> (r: Self)
        ensures
            r == opus_pricing(),
    {
        ModelPricing {
            input_cost_per_token: 1500,
            output_cost_per_token: 7500,
            cache_creation_input_token_cost: 1875,
            cache_read_input_token_cost: 150,
            cache_creation_1h_token_cost: 3000,
        }
    }

    /// The prices of the Sonnet family.
    pub fn sonnet() -> (r: Self)
        ensures
            r == sonnet_pricing(),
    {
        ModelPricing {
            input_cost_per_token: 300,
            output_cost_per_token: 1500,
            cache_creation_input_token_cost: 375,
            cache_read_input_token_cost: 30,
            cache_creation_1h_token_cost: 600,
        }
    }

    /// The prices of the Haiku family.
    pub fn haiku() -> (r: Self)
        ensures
            r == haiku_pricing(),
    {
        ModelPricing {
            input_cost_per_token: 80,
            output_cost_per_token: 400,
            cache_creation_input_token_cost: 100,
            cache_read_input_token_cost: 8,
            cache_creation_1h_token_cost: 160,
        }
    }

    /// The prices of a model that is not known.
    pub fn zero() -> (r: Self)
        ensures
            r == zero_pricing(),
    {
        ModelPricing {
            input_cost_per_token: 0,
            output_cost_per_token: 0,
            cache_creation_input_token_cost: 0,
            cache_read_input_token_cost: 0,
            cache_creation_1h_token_cost: 0,
        }
    }

    /// The prices that the keywords in a lower-case model name select.
    pub fn for_lowercase_name(lower: &str) -> (r: Self)
        ensures
            r == pricing_of_lowercase(lower@),
    {
        if str_contains(lower, "opus") {
            Self::opus()
        } else if str_contains(lower, "sonnet") {
            Self::sonnet()
        } else if str_contains(lower, "haiku") {
            Self::haiku()
        } else {
            Self::zero()
        }
    }
}

impl<'a> From<&'a ModelId> for ModelPricing {
    /// The prices of a model.
    fn from(model_id: &'a ModelId) -> (r: Self)
        ensures
            r == pricing_of(*model_id),
    {
        let lower = to_lowercase(model_id.as_str());
        Self::for_lowercase_name(lower.as_str())
    }
}

impl<'a> FromSpecImpl<&'a ModelId> for ModelPricing {
    open spec fn obeys_from_spec() -> bool {
        true
    }

    open spec fn from_spec(v: &'a ModelId) -> Self {
        pricing_of(*v)
    }
}

/// Token counts by role.
#[derive(Debug, Clone, Copy, PartialEq, Eq, Structural)]
pub struct TokenUsage {
    pub input_tokens: u32,
    pub output_tokens: u32,
    pub cache_creation_tokens: u32,
    pub cache_read_tokens: u32,
}

/// The cost of token counts at given prices: for each role, the count times
/// the price; cache writes at the five-minute price.
pub open spec fn token_cost(tokens: TokenUsage, pricing: ModelPricing) -> int {
    tokens.input_tokens * pricing.input_cost_per_token + tokens.output_tokens
        * pricing.output_cost_per_token + tokens.cache_creation_tokens
        * pricing.cache_creation_input_token_cost + tokens.cache_read_tokens
        * pricing.cache_read_input_token_cost
}

/// A token count that may be absent; absent counts as zero.
pub open spec fn count(tokens: Option<u32>) -> int {
    match tokens {
        Some(n) => n as int,
        None => 0,
    }
}

/// The cost of cache writes. Where the counts are split by retention tier,
/// each tier at its own price; otherwise the flat count at the five-minute
/// price.
pub open spec fn cache_write_cost(usage: Usage, pricing: ModelPricing) -> int {
    match usage.cache_creation {
        Some(split) => count(split.ephemeral_5m_input_tokens)
            * pricing.cache_creation_input_token_cost + count(split.ephemeral_1h_input_tokens)
            * pricing.cache_creation_1h_token_cost,
        None => count(usage.cache_creation_input_tokens) * pricing.cache_creation_input_token_cost,
    }
}

/// The cost of a message's token counts at given prices: the sum over all
/// roles of count times price.
pub open spec fn usage_cost(usage: Usage, pricing: ModelPricing) -> int {
    count(usage.input_tokens) * pricing.input_cost_per_token + count(usage.output_tokens)
        * pricing.output_cost_per_token + count(usage.cache_read_input_tokens)
        * pricing.cache_read_input_token_cost + cache_write_cost(usage, pricing)
}

/// The model that prices a record: the one that its message names, or else
/// the one that the record itself names.
pub open spec fn pricing_model(entry: UsageEntry) -> Option<ModelId> {
    match entry.data.message {
        Some(message) => match message.model {
            Some(model) => Some(model),
            None => entry.data.model,
        },
        None => entry.data.model,
    }
}

/// The cost of a record. A cost that the record carries is taken as it is.
/// Otherwise the record's token counts are priced by its model; a record
/// that lacks the counts or the model costs nothing.
pub open spec fn entry_cost(entry: UsageEntry) -> int {
    match entry.data.cost_usd {
        Some(cost) => cost as int,
        None => match entry.data.message {
            Some(message) => match (message.usage, pricing_model(entry)) {
                (Some(usage), Some(model)) => usage_cost(usage, pricing_of(model)),
                _ => 0,
            },
            None => 0,
        },
    }
}

impl TokenUsage {
    /// The cost of these token counts at the given prices.
    pub fn calculate_cost(&self, pricing: &ModelPricing) -> (r: i64)
        ensures
            r == token_cost(*self, *pricing),
    {
        let input: i64 = calculate_token_cost(
            Some(self.input_tokens),
            pricing.input_cost_per_token,
        );
        let output: i64 = calculate_token_cost(
            Some(self.output_tokens),
            pricing.output_cost_per_token,
        );
        let cache_write: i64 = calculate_token_cost(
            Some(self.cache_creation_tokens),
            pricing.cache_creation_input_token_cost,
        );
        let cache_read: i64 = calculate_token_cost(
            Some(self.cache_read_tokens),
            pricing.cache_read_input_token_cost,
        );
        input + output + cache_write + cache_read
    }
}

/// The cost of token counts at given prices.
pub fn calculate_cost(tokens: &TokenUsage, pricing: &ModelPricing) -> (r: i64)
    ensures
        r == token_cost(*tokens, *pricing),
{
    tokens.calculate_cost(pricing)
}

/// The cost of a count of tokens, absent counting as zero, at a price.
fn calculate_token_cost(tokens: Option<u32>, cost_per_token: u16) -> (r: i64)
    ensures
        r == count(tokens) * cost_per_token,
        0 <= r <= 0xffff_ffff * 0xffff,
{
    let n: u32 = match tokens {
        Some(n) => n,
        None => 0,
    };
    assert(n as int * cost_per_token as int <= 0xffff_ffff * 0xffff) by (nonlinear_arith)
        requires
            0 <= n <= 0xffff_ffff,
            0 <= cost_per_token <= 0xffff,
    ;
    assert(0 <= n as int * cost_per_token as int) by (nonlinear_arith)
        requires
            0 <= n,
            0 <= cost_per_token,
    ;
    n as i64 * cost_per_token as i64
}

/// The cost of a message's token counts at given prices.
pub fn calculate_usage_cost(usage: &Usage, pricing: &ModelPricing) -> (r: i64)
    ensures
        r == usage_cost(*usage, *pricing),
        0 <= r <= 5 * (0xffff_ffff * 0xffff),
{
    let common: i64 = calculate_token_cost(usage.input_tokens, pricing.input_cost_per_token)
        + calculate_token_cost(usage.output_tokens, pricing.output_cost_per_token)
        + calculate_token_cost(usage.cache_read_input_tokens, pricing.cache_read_input_token_cost);
    match &usage.cache_creation {
        Some(split) => common + calculate_token_cost(
            split.ephemeral_5m_input_tokens,
            pricing.cache_creation_input_token_cost,
        ) + calculate_token_cost(
            split.ephemeral_1h_input_tokens,
            pricing.cache_creation_1h_token_cost,
        ),
        None => common + calculate_token_cost(
            usage.cache_creation_input_tokens,
            pricing.cache_creation_input_token_cost,
        ),
    }
}

/// The cost of a record.
pub fn calculate_entry_cost(entry: &UsageEntry) -> (r: i64)
    ensures
        r == entry_cost(*entry),
{
    if let Some(cost) = entry.data.cost_usd {
        return cost;
    }
    match &entry.data.message {
        Some(message) => match &message.usage {
            Some(usage) => {
                let model: Option<&ModelId> = match &message.model {
                    Some(model) => Some(model),
                    None => match &entry.data.model {
                        Some(model) => Some(model),
                        None => None,
                    },
                };
                match model {
                    Some(model) => {
                        let pricing = ModelPricing::from(model);
                        calculate_usage_cost(usage, &pricing)
                    },
                    None => 0,
                }
            },
            None => 0,
        },
        None => 0,
    }
}

} // verus!
