//! The web-search capability as the kernel sees it: the endpoint, the
//! query parameters a search sends, and the registry entry the capability
//! contributes. The HTTP request and the decoding of the response body are
//! the driver's job; it hands back plain records.

use vstd::prelude::*;
use crate::registry::{ParamSpec, ParamType, ToolSpec};

verus! {

/// The search capability's failures, as the driver reports them.
#[derive(Debug, Clone)]
pub enum WebToolsError {
    GeneralError(String),
}

/// One record of a search response.
#[derive(Debug, Clone)]
pub struct SearchResult {
    pub url: String,
    pub title: String,
    pub content: String,
}

/// A search request: the query and its optional filters.
#[derive(Debug, Clone)]
pub struct SearchQuery {
    pub query: String,
    pub time_range: Option<String>,
    pub website: Option<String>,
}

/// A search capability backed by an external endpoint.
pub struct WebTools {
    crawl4ai_endpoint: String,
}

/// The query parameters a search sends: the query itself first, then each
/// filter that is set, in fixed order.
pub open spec fn query_params_of(q: SearchQuery) -> Seq<(Seq<char>, Seq<char>)> {
    let base = seq![("query"@, q.query@)];
    let with_time = if q.time_range is Some {
        base.push(("time_range"@, q.time_range->0@))
    } else {
        base
    };
    if q.website is Some {
        with_time.push(("website"@, q.website->0@))
    } else {
        with_time
    }
}

impl WebTools {
    /// The endpoint the driver must contact for this capability.
    pub closed spec fn endpoint(&self) -> Seq<char> {
        self.crawl4ai_endpoint@
    }

    pub fn new(crawl4ai_endpoint: String) -> (r: Self)
        ensures
            r.endpoint() == crawl4ai_endpoint@,
    {
        WebTools { crawl4ai_endpoint }
    }

    pub fn endpoint_url(&self) -> (r: &String)
        ensures
            r@ == self.endpoint(),
    {
        &self.crawl4ai_endpoint
    }

    /// Builds the query-parameter list of a search request, exactly as
    /// `query_params_of` lays it out.
    pub fn search_params(query: &SearchQuery) -> (r: Vec<(String, String)>)
        ensures
            r.deep_view() == query_params_of(*query),
    {
        let mut r: Vec<(String, String)> = Vec::new();
        r.push((String::from_str("query"), query.query.clone()));
        proof {
            assert(r.deep_view() =~= seq![("query"@, query.query@)]);
        }
        let ghost base = r.deep_view();
        if let Option::Some(t) = &query.time_range {
            r.push((String::from_str("time_range"), t.clone()));
            proof {
                assert(r.deep_view() =~= base.push(("time_range"@, query.time_range->0@)));
            }
        }
        let ghost with_time = r.deep_view();
        if let Option::Some(w) = &query.website {
            r.push((String::from_str("website"), w.clone()));
            proof {
                assert(r.deep_view() =~= with_time.push(("website"@, query.website->0@)));
            }
        }
        r
    }

    /// The registry entry for this capability: tool `search` with a
    /// required text query and two optional text filters.
    pub fn tool_spec(&self) -> (r: ToolSpec)
        ensures
            r.name@ == "search"@,
            r.params@.len() == 3,
            r.params@[0].name@ == "query"@ && r.params@[0].ty is Text && r.params@[0].required,
            r.params@[1].name@ == "time_range"@ && r.params@[1].ty is Text
                && !r.params@[1].required,
            r.params@[2].name@ == "website"@ && r.params@[2].ty is Text && !r.params@[2].required,
    {
        let mut params: Vec<ParamSpec> = Vec::new();
        params.push(
            ParamSpec { name: String::from_str("query"), ty: ParamType::Text, required: true },
        );
        params.push(
            ParamSpec {
                name: String::from_str("time_range"),
                ty: ParamType::Text,
                required: false,
            },
        );
        params.push(
            ParamSpec { name: String::from_str("website"), ty: ParamType::Text, required: false },
        );
        ToolSpec { name: String::from_str("search"), params }
    }
}

} // verus!
