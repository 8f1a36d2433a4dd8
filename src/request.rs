//! The body of a request to smash.gg's GraphQL API: which query, and the
//! variables it is sent with.

use vstd::prelude::*;

verus! {

/// Entrants asked for per page.
pub const MAX_ENTRANTS: i32 = 499;

/// Sets asked for per page.
pub const MAX_SETS: i32 = 70;

/// The events of a tournament, by slug.
pub const TOURNEY_EVENT_QUERY: &'static str =
    "query TournamentEvents($tournament_slug: String) { tournament(slug: $tournament_slug) { events { id name videogame { name } } } }";

/// The number of pages of an event's entrants.
pub const ENTRANT_PAGE_QUERY: &'static str =
    "query EntrantPages($event_id: ID!, $per_page: Int!) { event(id: $event_id) { entrants(query: { page: 1, perPage: $per_page }) { pageInfo { totalPages } } } }";

/// The number of pages of an event's sets.
pub const SETS_PAGE_QUERY: &'static str =
    "query SetPages($event_id: ID!, $per_page: Int!) { event(id: $event_id) { sets(page: 1, perPage: $per_page) { pageInfo { totalPages } } } }";

/// One page of an event's sets with their sides, scores and times.
pub const SETS_INFO_QUERY: &'static str =
    "query SetInfo($event_id: ID!, $page: Int!, $per_page: Int!) { event(id: $event_id) { sets(page: $page, perPage: $per_page) { nodes { id completedAt slots { entrant { id } standing { stats { score { value } } } } } } } }";

/// One page of an event's entrants with their players.
pub const ENTRANT_INFO_QUERY: &'static str =
    "query EntrantInfo($event_id: ID!, $page: Int!, $per_page: Int!) { event(id: $event_id) { entrants(query: { page: $page, perPage: $per_page }) { nodes { id participants { gamerTag user { id } } } } } }";

/// Which request a body is for.
#[derive(Debug, Clone, Copy, PartialEq, Eq, Structural)]
pub enum ContentType {
    /// The events of a tournament.
    Init,
    /// The page count of an event's entrants.
    Event,
    /// The page count of an event's sets.
    SetPages,
    /// One page of an event's sets.
    Info,
    /// One page of an event's entrants.
    Page,
}

/// The variables sent with a query; each query reads those it names.
pub struct Variables {
    pub tournament_slug: Option<String>,
    pub event_id: Option<i32>,
    pub page: Option<i32>,
    pub per_page: Option<i32>,
}

/// A request body: the query and its variables.
pub struct Content {
    pub query: &'static str,
    pub variables: Variables,
}

/// The query of each kind of request.
pub open spec fn spec_query(kind: ContentType) -> &'static str {
    match kind {
        ContentType::Init => TOURNEY_EVENT_QUERY,
        ContentType::Event => ENTRANT_PAGE_QUERY,
        ContentType::SetPages => SETS_PAGE_QUERY,
        ContentType::Info => SETS_INFO_QUERY,
        ContentType::Page => ENTRANT_INFO_QUERY,
    }
}

/// The page size of each kind of request; none for the tournament's events.
pub open spec fn spec_per_page(kind: ContentType) -> Option<i32> {
    match kind {
        ContentType::Init => None,
        ContentType::Event => Some(MAX_ENTRANTS),
        ContentType::SetPages => Some(MAX_SETS),
        ContentType::Info => Some(MAX_SETS),
        ContentType::Page => Some(MAX_ENTRANTS),
    }
}

impl Variables {
    /// No variable set.
    pub fn new() -> (r: Variables)
        ensures
            r.tournament_slug is None,
            r.event_id is None,
            r.page is None,
            r.per_page is None,
    {
        Variables { tournament_slug: None, event_id: None, page: None, per_page: None }
    }
}

impl Content {
    /// An empty query with no variable set.
    pub fn new() -> (r: Content)
        ensures
            r.query@.len() == 0,
            r.variables.tournament_slug is None,
            r.variables.event_id is None,
            r.variables.page is None,
            r.variables.per_page is None,
    {
        proof {
            reveal_strlit("");
        }
        Content { query: "", variables: Variables::new() }
    }

    /// Turns the body into one for `kind`: its query and its page size. The
    /// slug, event id and page are left as they are; for `Init` the slug is
    /// set beforehand.
    pub fn edit_content(&mut self, kind: ContentType)
        ensures
            final(self).query == spec_query(kind),
            final(self).variables.per_page == spec_per_page(kind),
            final(self).variables.tournament_slug == old(self).variables.tournament_slug,
            final(self).variables.event_id == old(self).variables.event_id,
            final(self).variables.page == old(self).variables.page,
    {
        let (query, per_page) = match kind {
            ContentType::Init => (TOURNEY_EVENT_QUERY, None),
            ContentType::Event => (ENTRANT_PAGE_QUERY, Some(MAX_ENTRANTS)),
            ContentType::SetPages => (SETS_PAGE_QUERY, Some(MAX_SETS)),
            ContentType::Info => (SETS_INFO_QUERY, Some(MAX_SETS)),
            ContentType::Page => (ENTRANT_INFO_QUERY, Some(MAX_ENTRANTS)),
        };
        self.query = query;
        self.variables.per_page = per_page;
    }
}

} // verus!
