//! Structured, content-free observations for model requests.
use vstd::prelude::*;

use crate::text::{lex_order, lex_order_str, lemma_lex_order_props};

verus! {

/// Token usage as a provider reports it for one request.
#[derive(Clone, Copy, Debug, Default, PartialEq, Eq, Structural)]
pub struct TokenUsage {
    pub input_tokens: u32,
    pub output_tokens: u32,
    pub cache_hit_tokens: u32,
    pub cache_miss_tokens: u32,
}

/// Provider-reported prompt-cache token accounting for one model request.
#[derive(Clone, Copy, Debug, Default, PartialEq, Eq, Structural)]
pub struct ModelCacheUsage {
    pub hit_tokens: u32,
    pub miss_tokens: u32,
}

impl ModelCacheUsage {
    /// The provider-reported cache hit rate in basis points (hundredths of a
    /// percent), rounded down; `None` when no cache tokens were reported.
    pub fn hit_rate_basis_points(self) -> (r: Option<u16>)
        ensures
            self.hit_tokens + self.miss_tokens == 0 ==> r is None,
            self.hit_tokens + self.miss_tokens > 0 ==> r == Some(
                ((self.hit_tokens * 10000) / (self.hit_tokens + self.miss_tokens)) as u16,
            ),
            r matches Some(bp) ==> bp <= 10000,
    {
        let hit = self.hit_tokens as u64;
        let total: u64 = hit + self.miss_tokens as u64;
        if total == 0 {
            return None;
        }
        assert(hit * 10000 <= 0xffff_ffff * 10000) by (nonlinear_arith)
            requires
                hit <= 0xffff_ffff,
        ;
        let scaled: u64 = hit * 10000;
        let bp: u64 = scaled / total;
        assert(bp <= 10000) by (nonlinear_arith)
            requires
                bp == scaled / total,
                scaled == hit * 10000,
                hit <= total,
                total > 0,
        ;
        Some(bp as u16)
    }
}

/// Token usage returned for one model request.
#[derive(Clone, Copy, Debug, Default, PartialEq, Eq, Structural)]
pub struct ModelTokenUsage {
    pub input_tokens: u32,
    pub output_tokens: u32,
    /// `None` means the provider did not expose usable cache accounting.
    pub cache: Option<ModelCacheUsage>,
}

impl ModelTokenUsage {
    /// The usage of a provider report. Cache accounting is present exactly
    /// when the provider counted any cache hit or miss, so zero hits stay
    /// distinguishable from no accounting at all.
    pub fn from_provider_usage(usage: &TokenUsage) -> (r: Self)
        ensures
            r.input_tokens == usage.input_tokens,
            r.output_tokens == usage.output_tokens,
            (usage.cache_hit_tokens != 0 || usage.cache_miss_tokens != 0) ==> r.cache == Some(
                ModelCacheUsage { hit_tokens: usage.cache_hit_tokens, miss_tokens: usage.cache_miss_tokens },
            ),
            (usage.cache_hit_tokens == 0 && usage.cache_miss_tokens == 0) ==> r.cache is None,
    {
        let cache = if usage.cache_hit_tokens != 0 || usage.cache_miss_tokens != 0 {
            Some(ModelCacheUsage { hit_tokens: usage.cache_hit_tokens, miss_tokens: usage.cache_miss_tokens })
        } else {
            None
        };
        ModelTokenUsage { input_tokens: usage.input_tokens, output_tokens: usage.output_tokens, cache }
    }
}

/// Content-free hashes of provider request components that affect cache
/// locality.
#[derive(Clone, Debug, PartialEq, Eq)]
pub struct ModelRequestFingerprint {
    /// Version of the fingerprint layout, independent from the hash algorithm.
    pub version: u8,
    /// Opaque scope in which hashes are comparable.
    pub hash_scope: String,
    /// Hash of the complete logical request body.
    pub request_sha256: String,
    /// Hash of all leading system messages, when present.
    pub system_sha256: Option<String>,
    /// Hash of the serialized provider message list.
    pub messages_sha256: String,
    /// Hash of the serialized provider tool list.
    pub tools_sha256: String,
    /// Hash of model and other request options.
    pub options_sha256: String,
    /// A bounded prefix of per-message hashes for prefix comparison.
    pub message_sha256: Vec<String>,
    /// A bounded prefix of per-tool hashes for tool-schema comparison.
    pub tool_sha256: Vec<String>,
    pub message_count: usize,
    pub tool_count: usize,
}

/// Length of the longest common prefix of two hash lists.
pub open spec fn common_prefix_len(a: Seq<String>, b: Seq<String>) -> nat
    decreases a.len(),
{
    if a.len() == 0 || b.len() == 0 || a[0]@ != b[0]@ {
        0
    } else {
        1 + common_prefix_len(a.drop_first(), b.drop_first())
    }
}

impl ModelRequestFingerprint {
    /// The number of identical leading provider messages shared with
    /// `other`; 0 when the two hashes are not comparable (different scope).
    pub fn shared_message_prefix_len(&self, other: &Self) -> (n: usize)
        ensures
            self.hash_scope@ != other.hash_scope@ ==> n == 0,
            self.hash_scope@ == other.hash_scope@ ==> n == common_prefix_len(
                self.message_sha256@,
                other.message_sha256@,
            ),
    {
        let c = lex_order_str(self.hash_scope.as_str(), other.hash_scope.as_str());
        proof {
            lemma_lex_order_props(self.hash_scope@, other.hash_scope@);
        }
        if c != 0 {
            return 0;
        }
        let a = &self.message_sha256;
        let b = &other.message_sha256;
        let mut i: usize = 0;
        assert(a@.skip(0) =~= a@);
        assert(b@.skip(0) =~= b@);
        while i < a.len() && i < b.len()
            invariant
                self.hash_scope@ == other.hash_scope@,
                a == &self.message_sha256,
                b == &other.message_sha256,
                i <= a.len(),
                i <= b.len(),
                common_prefix_len(a@, b@) == i + common_prefix_len(
                    a@.skip(i as int),
                    b@.skip(i as int),
                ),
            decreases a.len() - i,
        {
            let same = lex_order_str(a[i].as_str(), b[i].as_str()) == 0;
            proof {
                lemma_lex_order_props(a@[i as int]@, b@[i as int]@);
                assert(a@.skip(i as int)[0] == a@[i as int]);
                assert(b@.skip(i as int)[0] == b@[i as int]);
            }
            if !same {
                return i;
            }
            assert(a@.skip(i as int).drop_first() =~= a@.skip(i + 1));
            assert(b@.skip(i as int).drop_first() =~= b@.skip(i + 1));
            i += 1;
        }
        assert(a@.skip(i as int).len() == 0 || b@.skip(i as int).len() == 0);
        i
    }
}

/// Observation for one main-model request in an agent query.
#[derive(Clone, Debug, PartialEq, Eq)]
pub struct ModelTurnReport {
    pub model: String,
    pub duration_ms: u64,
    pub finish_reason: Option<String>,
    pub usage: Option<ModelTokenUsage>,
    pub request_fingerprint: Option<ModelRequestFingerprint>,
}

/// Structured observations collected while executing one user query.
#[derive(Clone, Debug, Default, PartialEq, Eq)]
pub struct QueryReport {
    pub model_turns: Vec<ModelTurnReport>,
}

} // verus!
