//! Page visits reported by the tracking snippet: which site and page a
//! visit belongs to, and the record kept of it.

use vstd::prelude::*;
use crate::api::TrackingInput;

verus! {

/// What `url::Url::parse` makes of a page URL: nothing if it does not parse
/// as an absolute URL; otherwise its domain (none for an IP host) and its path.
pub uninterp spec fn parsed_page(page_url: Seq<char>) -> Option<(Option<Seq<char>>, Seq<char>)>;

/// Relies on url::Url::parse, and on Url::domain and Url::path of the
/// parsed URL.
#[verifier::external_body]
fn parse_page(page_url: &str) -> (r: Option<(Option<String>, String)>)
    ensures
        r is Some <==> parsed_page(page_url@) is Some,
        r is Some ==> (r.unwrap().0 is Some <==> parsed_page(page_url@).unwrap().0 is Some),
        r is Some ==> r.unwrap().1@ == parsed_page(page_url@).unwrap().1,
        r is Some && r.unwrap().0 is Some ==> r.unwrap().0.unwrap()@ == parsed_page(page_url@).unwrap().0.unwrap(),
{
    match url::Url::parse(page_url) {
        Ok(u) => {
            let domain = match u.domain() {
                Some(d) => Some(d.to_owned()),
                None => None,
            };
            Some((domain, u.path().to_owned()))
        },
        Err(_) => None,
    }
}

/// The site (by domain) and page path a visit is recorded under, given what
/// parsing its URL gave: a URL that did not parse, or has no domain, is
/// not recorded.
pub fn visit_target(parsed: Option<(Option<String>, String)>) -> (r: Option<(String, String)>)
    ensures
        r is Some <==> parsed is Some && parsed.unwrap().0 is Some,
        r is Some ==> r.unwrap().0@ == parsed.unwrap().0.unwrap()@ && r.unwrap().1@ == parsed.unwrap().1@,
{
    match parsed {
        Some((Some(domain), path)) => Some((domain, path)),
        _ => None,
    }
}

/// The site and page path of a visit to `page_url`.
pub fn locate_visit(page_url: &String) -> (r: Option<(String, String)>)
    ensures
        r is Some <==> parsed_page(page_url@) is Some && parsed_page(page_url@).unwrap().0 is Some,
        r is Some ==> r.unwrap().0@ == parsed_page(page_url@).unwrap().0.unwrap()
            && r.unwrap().1@ == parsed_page(page_url@).unwrap().1,
{
    visit_target(parse_page(page_url.as_str()))
}

/// One recorded page visit.
pub struct PageVisit {
    pub visitor_id: String,
    pub page_path: String,
    pub referrer: String,
    pub user_agent: String,
    pub website: String,
}

/// The record of a reported visit to page `page_path` of the registered site `website`.
pub fn page_visit(input: TrackingInput, page_path: String, website: String) -> (r: PageVisit)
    ensures
        r.visitor_id@ == input.visitor_id@,
        r.referrer@ == input.referrer@,
        r.user_agent@ == input.user_agent@,
        r.page_path@ == page_path@,
        r.website@ == website@,
{
    PageVisit {
        visitor_id: input.visitor_id,
        page_path,
        referrer: input.referrer,
        user_agent: input.user_agent,
        website,
    }
}

} // verus!
