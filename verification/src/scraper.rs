//! The scrape capability as the kernel sees it: an endpoint and the tool
//! description it contributes to the registry. The HTTP call itself is made
//! by the driver.

use vstd::prelude::*;
use crate::registry::{ParamSpec, ParamType, ToolSpec};

verus! {

/// A page-scraping capability backed by an external endpoint.
pub struct Scraper {
    crawl4ai_endpoint: String,
}

/// The raw record a scrape returns; the backend owns its format, so the
/// kernel carries nothing of it.
#[derive(Debug, Clone)]
pub struct ScrapeResult {}

impl Scraper {
    pub fn new(crawl4ai_endpoint: String) -> (r: Self)
        ensures
            r.endpoint() == crawl4ai_endpoint@,
    {
        Scraper { crawl4ai_endpoint }
    }

    /// The endpoint the driver must contact for this capability.
    pub closed spec fn endpoint(&self) -> Seq<char> {
        self.crawl4ai_endpoint@
    }

    pub fn endpoint_url(&self) -> (r: &String)
        ensures
            r@ == self.endpoint(),
    {
        &self.crawl4ai_endpoint
    }

    /// The registry entry for this capability: tool `scrape` with one
    /// required text parameter, the page's address.
    pub fn tool_spec(&self) -> (r: ToolSpec)
        ensures
            r.name@ == "scrape"@,
            r.params@.len() == 1,
            r.params@[0].name@ == "url"@ && r.params@[0].ty is Text && r.params@[0].required,
    {
        let mut params: Vec<ParamSpec> = Vec::new();
        params.push(
            ParamSpec { name: String::from_str("url"), ty: ParamType::Text, required: true },
        );
        ToolSpec { name: String::from_str("scrape"), params }
    }
}

} // verus!
