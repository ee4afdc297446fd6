//! The web search settings.

use vstd::prelude::*;

verus! {

/// Which search service to call.
#[derive(Debug, Clone, Copy, PartialEq, Eq, Structural)]
pub enum SearchProvider {
    Tavily,
    Custom,
}

/// The web search settings.
#[derive(Debug, Clone)]
pub struct SearchConfig {
    pub provider: SearchProvider,
    pub api_key: String,
    pub api_endpoint: String,
    pub max_results: u32,
}

impl Default for SearchConfig {
    /// Tavily, with no key or address yet, asking for 10 hits.
    fn default() -> (c: SearchConfig)
        ensures
            c.provider == SearchProvider::Tavily,
            c.api_key@ == Seq::<char>::empty(),
            c.api_endpoint@ == Seq::<char>::empty(),
            c.max_results == 10,
    {
        SearchConfig {
            provider: SearchProvider::Tavily,
            api_key: String::new(),
            api_endpoint: String::new(),
            max_results: 10,
        }
    }
}

/// The error for missing settings, if any: every provider needs a key, and
/// a custom service needs an address.
pub open spec fn search_config_problem(c: SearchConfig) -> Option<Seq<char>> {
    if c.api_key@.len() == 0 {
        Some("搜索API密钥不能为空"@)
    } else if c.provider == SearchProvider::Custom && c.api_endpoint@.len() == 0 {
        Some("自定义API地址不能为空"@)
    } else {
        None
    }
}

/// Checks the search settings before they are saved.
pub fn validate_search_config(config: &SearchConfig) -> (r: Result<(), String>)
    ensures
        r is Ok <==> search_config_problem(*config) is None,
        r matches Err(e) ==> Some(e@) == search_config_problem(*config),
{
    if config.api_key.as_str().is_empty() {
        return Err("搜索API密钥不能为空".to_string());
    }
    if config.provider == SearchProvider::Custom && config.api_endpoint.as_str().is_empty() {
        return Err("自定义API地址不能为空".to_string());
    }
    Ok(())
}

} // verus!
