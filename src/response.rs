//! The parts of smash.gg's GraphQL responses that the engine reads, and
//! what it takes from them: the events of a tournament, the roster of an
//! event, the number of pages, and the results of sets.

use vstd::prelude::*;
use crate::error::EloError;
use crate::rating::FORFEIT_SCORE;
use std::collections::HashMap;

verus! {

broadcast use vstd::std_specs::hash::group_hash_axioms;

/// The result of one set: per-event participant ids, scores (`-1` where
/// no result was recorded) and the completion time in seconds since the
/// epoch.
#[derive(Debug, Clone, Copy, PartialEq, Eq, Structural)]
pub struct SetInfo {
    pub player_one_id: i32,
    pub player_one_score: i32,
    pub player_two_id: i32,
    pub player_two_score: i32,
    pub time: i64,
}

/// A response to any of the requests.
pub struct PostResponse {
    pub data: Data,
}

/// The top of a response: a tournament or an event, as requested.
pub struct Data {
    pub tournament: Option<Tournament>,
    pub event: Option<Event>,
}

/// A tournament and its events.
pub struct Tournament {
    pub events: Vec<Events>,
}

/// One event of a tournament.
pub struct Events {
    pub id: i32,
    pub name: String,
    pub videogame: Videogame,
}

/// The game an event is played in.
pub struct Videogame {
    pub name: String,
}

/// An event: a page of its entrants or of its sets.
pub struct Event {
    pub entrants: Option<Entrants>,
    pub sets: Option<Sets>,
}

/// A page of entrants.
pub struct Entrants {
    pub page_info: Option<PageInfo>,
    pub nodes: Option<Vec<Nodes>>,
}

/// A page of sets.
pub struct Sets {
    pub page_info: Option<PageInfo>,
    pub nodes: Option<Vec<Nodes>>,
}

/// How many pages a listing has.
pub struct PageInfo {
    pub total_pages: i32,
}

/// An entrant (id and participants) or a set (completion time and slots).
pub struct Nodes {
    pub id: Option<i32>,
    pub participants: Option<Vec<Participants>>,
    pub completed_at: Option<i64>,
    pub slots: Option<Vec<Slots>>,
}

/// A player behind an entrant.
pub struct Participants {
    pub gamer_tag: String,
    pub user: User,
}

/// The smash.gg account of a player.
pub struct User {
    pub id: Option<i32>,
}

/// One side of a set.
pub struct Slots {
    pub entrant: Option<Entrant>,
    pub standing: Option<Standing>,
}

/// The entrant on one side of a set.
pub struct Entrant {
    pub id: Option<i32>,
}

/// How one side of a set stood.
pub struct Standing {
    pub stats: Stats,
}

/// The statistics of one side of a set.
pub struct Stats {
    pub score: Score,
}

/// The score of one side of a set; absent where no result was recorded.
pub struct Score {
    pub value: Option<i32>,
}

/// The score a side counts: the recorded one, else the forfeit sentinel.
pub open spec fn spec_score(score: Score) -> i32 {
    match score.value {
        Some(v) => v,
        None => FORFEIT_SCORE,
    }
}

/// The entrant id and score of one side of a set, where its entrant id is
/// there.
pub open spec fn spec_side(slot: Slots) -> Option<(i32, i32)> {
    match (slot.entrant, slot.standing) {
        (Some(e), Some(st)) => match e.id {
            Some(id) => Some((id, spec_score(st.stats.score))),
            None => None,
        },
        _ => None,
    }
}

/// The result a set node gives, where the fields it needs are there.
pub open spec fn spec_set_info(node: Nodes) -> Option<SetInfo> {
    match (node.slots, node.completed_at) {
        (Some(slots), Some(time)) => if slots@.len() >= 2 {
            match (spec_side(slots@[0]), spec_side(slots@[1])) {
                (Some(a), Some(b)) => Some(
                    SetInfo {
                        player_one_id: a.0,
                        player_one_score: a.1,
                        player_two_id: b.0,
                        player_two_score: b.1,
                        time,
                    },
                ),
                _ => None,
            }
        } else {
            None
        },
        _ => None,
    }
}

/// The set nodes of a response, where there are any.
pub open spec fn spec_set_nodes(r: PostResponse) -> Option<Seq<Nodes>> {
    match r.data.event {
        Some(ev) => match ev.sets {
            Some(sets) => match sets.nodes {
                Some(nodes) => Some(nodes@),
                None => None,
            },
            None => None,
        },
        None => None,
    }
}

/// The roster entry an entrant node gives: its id, and the gamer tag and
/// global id of its first participant.
pub open spec fn spec_roster_entry(node: Nodes) -> Option<(i32, (String, i32))> {
    match (node.id, node.participants) {
        (Some(id), Some(ps)) => if ps@.len() >= 1 {
            match ps@[0].user.id {
                Some(uid) => Some((id, (ps@[0].gamer_tag, uid))),
                None => None,
            }
        } else {
            None
        },
        _ => None,
    }
}

/// The entrant nodes of a response, where there are any.
pub open spec fn spec_entrant_nodes(r: PostResponse) -> Option<Seq<Nodes>> {
    match r.data.event {
        Some(ev) => match ev.entrants {
            Some(en) => match en.nodes {
                Some(nodes) => Some(nodes@),
                None => None,
            },
            None => None,
        },
        None => None,
    }
}

/// The page count of the set listing of a response.
pub open spec fn spec_set_pages(r: PostResponse) -> Option<i32> {
    match r.data.event {
        Some(ev) => match ev.sets {
            Some(sets) => match sets.page_info {
                Some(pi) => Some(pi.total_pages),
                None => None,
            },
            None => None,
        },
        None => None,
    }
}

/// The page count of the entrant listing of a response.
pub open spec fn spec_entrant_pages(r: PostResponse) -> Option<i32> {
    match r.data.event {
        Some(ev) => match ev.entrants {
            Some(en) => match en.page_info {
                Some(pi) => Some(pi.total_pages),
                None => None,
            },
            None => None,
        },
        None => None,
    }
}

/// Every set node of the response gives a result.
pub open spec fn sets_page_ok(r: PostResponse) -> bool {
    spec_set_nodes(r) matches Some(nodes) && forall|i: int|
        0 <= i < nodes.len() ==> (#[trigger] spec_set_info(nodes[i])) is Some
}

/// Every entrant node of the response gives a roster entry.
pub open spec fn entrant_page_ok(r: PostResponse) -> bool {
    spec_entrant_nodes(r) matches Some(nodes) && forall|i: int|
        0 <= i < nodes.len() ==> (#[trigger] spec_roster_entry(nodes[i])) is Some
}

/// The roster entries of one page of entrants, in page order.
pub open spec fn page_entries(r: PostResponse) -> Seq<(i32, (String, i32))> {
    match spec_entrant_nodes(r) {
        Some(nodes) => nodes.map_values(|n: Nodes| spec_roster_entry(n)->0),
        None => Seq::empty(),
    }
}

/// The roster entries of all pages, page after page.
pub open spec fn entries_of(pages: Seq<PostResponse>) -> Seq<(i32, (String, i32))>
    decreases pages.len(),
{
    if pages.len() == 0 {
        Seq::empty()
    } else {
        entries_of(pages.drop_last()) + page_entries(pages.last())
    }
}

/// The map the entries make when inserted in order (a later entry for the
/// same participant id replaces an earlier one).
pub open spec fn roster_of(entries: Seq<(i32, (String, i32))>) -> Map<i32, (String, i32)>
    decreases entries.len(),
{
    if entries.len() == 0 {
        Map::empty()
    } else {
        roster_of(entries.drop_last()).insert(entries.last().0, entries.last().1)
    }
}

impl Score {
    /// The recorded score, or the forfeit sentinel where none was recorded.
    pub fn value(&self) -> (r: i32)
        ensures
            r == spec_score(*self),
    {
        match self.value {
            Some(value) => value,
            None => FORFEIT_SCORE,
        }
    }
}

impl Entrant {
    /// The entrant's id, where it is there.
    pub fn id(&self) -> (r: Option<i32>)
        ensures
            r == self.id,
    {
        self.id
    }
}

impl User {
    /// The account's global id, where it is there.
    pub fn id(&self) -> (r: Option<i32>)
        ensures
            r == self.id,
    {
        self.id
    }
}

impl Slots {
    /// The entrant of this side, where it is there.
    pub fn entrant(&self) -> (r: Option<&Entrant>)
        ensures
            r is Some <==> self.entrant is Some,
            r is Some ==> self.entrant->0 == r->0,
    {
        self.entrant.as_ref()
    }

    /// The standing of this side, where it is there.
    pub fn standing(&self) -> (r: Option<&Standing>)
        ensures
            r is Some <==> self.standing is Some,
            r is Some ==> self.standing->0 == r->0,
    {
        self.standing.as_ref()
    }

    /// The entrant id and score of this side, where its entrant id is there.
    fn side(&self) -> (r: Option<(i32, i32)>)
        ensures
            r == spec_side(*self),
    {
        match (self.entrant(), self.standing()) {
            (Some(e), Some(st)) => match e.id() {
                Some(id) => Some((id, st.stats.score.value())),
                None => None,
            },
            _ => None,
        }
    }
}

impl Nodes {
    /// The entrant id, where it is there.
    pub fn id(&self) -> (r: Option<i32>)
        ensures
            r == self.id,
    {
        self.id
    }

    /// The participants behind an entrant, where they are there.
    pub fn participants(&self) -> (r: Option<&Vec<Participants>>)
        ensures
            r is Some <==> self.participants is Some,
            r is Some ==> self.participants->0 == r->0,
    {
        self.participants.as_ref()
    }

    /// The completion time of a set, where it is there.
    pub fn completed_at(&self) -> (r: Option<i64>)
        ensures
            r == self.completed_at,
    {
        self.completed_at
    }

    /// The sides of a set, where they are there.
    pub fn slots(&self) -> (r: Option<&Vec<Slots>>)
        ensures
            r is Some <==> self.slots is Some,
            r is Some ==> self.slots->0 == r->0,
    {
        self.slots.as_ref()
    }

    /// The result of a set node, where the fields it needs are there.
    fn set_info(&self) -> (r: Option<SetInfo>)
        ensures
            r == spec_set_info(*self),
    {
        match (self.slots(), self.completed_at()) {
            (Some(slots), Some(time)) => if slots.len() >= 2 {
                match (slots[0].side(), slots[1].side()) {
                    (Some(a), Some(b)) => Some(
                        SetInfo {
                            player_one_id: a.0,
                            player_one_score: a.1,
                            player_two_id: b.0,
                            player_two_score: b.1,
                            time,
                        },
                    ),
                    _ => None,
                }
            } else {
                None
            },
            _ => None,
        }
    }

    /// The roster entry of an entrant node, where the fields it needs are
    /// there.
    fn roster_entry(&self) -> (r: Option<(i32, (String, i32))>)
        ensures
            r == spec_roster_entry(*self),
    {
        match (self.id(), self.participants()) {
            (Some(id), Some(ps)) => if ps.len() >= 1 {
                match ps[0].user.id() {
                    Some(uid) => Some((id, (ps[0].gamer_tag.clone(), uid))),
                    None => None,
                }
            } else {
                None
            },
            _ => None,
        }
    }
}

impl Entrants {
    /// The page count of the entrant listing, where it is there.
    pub fn page_info(&self) -> (r: Option<&PageInfo>)
        ensures
            r is Some <==> self.page_info is Some,
            r is Some ==> self.page_info->0 == r->0,
    {
        self.page_info.as_ref()
    }

    /// The entrants of this page, where they are there.
    pub fn nodes(&self) -> (r: Option<&Vec<Nodes>>)
        ensures
            r is Some <==> self.nodes is Some,
            r is Some ==> self.nodes->0 == r->0,
    {
        self.nodes.as_ref()
    }
}

impl Sets {
    /// The page count of the set listing, where it is there.
    pub fn page_info(&self) -> (r: Option<&PageInfo>)
        ensures
            r is Some <==> self.page_info is Some,
            r is Some ==> self.page_info->0 == r->0,
    {
        self.page_info.as_ref()
    }

    /// The sets of this page, where they are there.
    pub fn nodes(&self) -> (r: Option<&Vec<Nodes>>)
        ensures
            r is Some <==> self.nodes is Some,
            r is Some ==> self.nodes->0 == r->0,
    {
        self.nodes.as_ref()
    }
}

impl Event {
    /// The entrant listing, where it is there.
    pub fn entrants(&self) -> (r: Option<&Entrants>)
        ensures
            r is Some <==> self.entrants is Some,
            r is Some ==> self.entrants->0 == r->0,
    {
        self.entrants.as_ref()
    }

    /// The set listing, where it is there.
    pub fn sets(&self) -> (r: Option<&Sets>)
        ensures
            r is Some <==> self.sets is Some,
            r is Some ==> self.sets->0 == r->0,
    {
        self.sets.as_ref()
    }
}

impl Data {
    /// The tournament, where it is there.
    pub fn tournament(&self) -> (r: Option<&Tournament>)
        ensures
            r is Some <==> self.tournament is Some,
            r is Some ==> self.tournament->0 == r->0,
    {
        self.tournament.as_ref()
    }

    /// The event, where it is there.
    pub fn event(&self) -> (r: Option<&Event>)
        ensures
            r is Some <==> self.event is Some,
            r is Some ==> self.event->0 == r->0,
    {
        self.event.as_ref()
    }
}

impl PostResponse {
    /// The number of pages of the event's set listing.
    pub fn get_total_pages(&self) -> (r: Result<i32, EloError>)
        ensures
            r matches Ok(n) ==> spec_set_pages(*self) == Some(n),
            r is Err ==> spec_set_pages(*self) is None && r == Err::<i32, EloError>(
                EloError::MissingField,
            ),
    {
        match self.data.event() {
            Some(ev) => match ev.sets() {
                Some(sets) => match sets.page_info() {
                    Some(pi) => Ok(pi.total_pages),
                    None => Err(EloError::MissingField),
                },
                None => Err(EloError::MissingField),
            },
            None => Err(EloError::MissingField),
        }
    }

    /// The number of pages of the event's entrant listing.
    pub fn get_entrant_pages(&self) -> (r: Result<i32, EloError>)
        ensures
            r matches Ok(n) ==> spec_entrant_pages(*self) == Some(n),
            r is Err ==> spec_entrant_pages(*self) is None && r == Err::<i32, EloError>(
                EloError::MissingField,
            ),
    {
        match self.data.event() {
            Some(ev) => match ev.entrants() {
                Some(en) => match en.page_info() {
                    Some(pi) => Ok(pi.total_pages),
                    None => Err(EloError::MissingField),
                },
                None => Err(EloError::MissingField),
            },
            None => Err(EloError::MissingField),
        }
    }

    /// The results of the sets of this page, last node first (the listing
    /// runs from the most recent set back).
    pub fn get_sets_info(&self) -> (r: Result<Vec<SetInfo>, EloError>)
        ensures
            r is Ok <==> sets_page_ok(*self),
            r matches Ok(v) ==> v@ == spec_set_nodes(*self)->0.map_values(
                |n: Nodes| spec_set_info(n)->0,
            ).reverse(),
            r is Err ==> r == Err::<Vec<SetInfo>, EloError>(EloError::MissingField),
    {
        let nodes = match self.data.event() {
            Some(ev) => match ev.sets() {
                Some(sets) => match sets.nodes() {
                    Some(nodes) => nodes,
                    None => {
                        return Err(EloError::MissingField);
                    },
                },
                None => {
                    return Err(EloError::MissingField);
                },
            },
            None => {
                return Err(EloError::MissingField);
            },
        };
        let n = nodes.len();
        let mut set_vec: Vec<SetInfo> = Vec::new();
        let mut k: usize = n;
        while k > 0
            invariant
                spec_set_nodes(*self) == Some(nodes@),
                n == nodes@.len(),
                k <= n,
                set_vec@.len() == n - k,
                forall|j: int| 0 <= j < n - k ==> #[trigger] set_vec@[j] == spec_set_info(nodes@[n - 1 - j])->0,
                forall|i: int| k <= i < n ==> (#[trigger] spec_set_info(nodes@[i])) is Some,
            decreases k,
        {
            k = k - 1;
            match nodes[k].set_info() {
                Some(info) => set_vec.push(info),
                None => {
                    return Err(EloError::MissingField);
                },
            }
        }
        proof {
            assert(set_vec@ =~= nodes@.map_values(|n: Nodes| spec_set_info(n)->0).reverse());
        }
        Ok(set_vec)
    }

    /// The event at index `choice` of the tournament: its id, its game's
    /// name and its own name.
    pub fn get_event_info(&self, choice: i32) -> (r: Result<(i32, String, String), EloError>)
        ensures
            self.data.tournament is None ==> r == Err::<(i32, String, String), EloError>(
                EloError::MissingField,
            ),
            self.data.tournament matches Some(t) ==> {
                &&& (choice < 0 || choice >= t.events@.len()) ==> r == Err::<
                    (i32, String, String),
                    EloError,
                >(EloError::NoSuchEvent)
                &&& 0 <= choice < t.events@.len() ==> r == Ok::<(i32, String, String), EloError>(
                    (
                        t.events@[choice as int].id,
                        t.events@[choice as int].videogame.name,
                        t.events@[choice as int].name,
                    ),
                )
            },
    {
        match self.data.tournament() {
            Some(t) => {
                if choice < 0 || choice as usize >= t.events.len() {
                    return Err(EloError::NoSuchEvent);
                }
                let info = &t.events[choice as usize];
                Ok((info.id, info.videogame.name.clone(), info.name.clone()))
            },
            None => Err(EloError::MissingField),
        }
    }

    /// The roster of an event from all pages of its entrant listing: each
    /// entrant id maps to the gamer tag and global id of its first
    /// participant.
    pub fn construct_players(pages: &Vec<PostResponse>) -> (r: Result<
        HashMap<i32, (String, i32)>,
        EloError,
    >)
        ensures
            r is Ok <==> forall|p: int| 0 <= p < pages@.len() ==> entrant_page_ok(#[trigger] pages@[p]),
            r matches Ok(m) ==> m@ == roster_of(entries_of(pages@)),
            r is Err ==> r == Err::<HashMap<i32, (String, i32)>, EloError>(EloError::MissingField),
    {
        let mut player_map: HashMap<i32, (String, i32)> = HashMap::new();
        let n = pages.len();
        for p in 0..n
            invariant
                n == pages@.len(),
                forall|q: int| 0 <= q < p ==> entrant_page_ok(#[trigger] pages@[q]),
                player_map@ == roster_of(entries_of(pages@.subrange(0, p as int))),
        {
            let nodes = match pages[p].data.event() {
                Some(ev) => match ev.entrants() {
                    Some(en) => match en.nodes() {
                        Some(nodes) => nodes,
                        None => {
                            return Err(EloError::MissingField);
                        },
                    },
                    None => {
                        return Err(EloError::MissingField);
                    },
                },
                None => {
                    return Err(EloError::MissingField);
                },
            };
            let ghost done = entries_of(pages@.subrange(0, p as int));
            let m = nodes.len();
            for i in 0..m
                invariant
                    n == pages@.len(),
                    p < n,
                    m == nodes@.len(),
                    spec_entrant_nodes(pages@[p as int]) == Some(nodes@),
                    forall|q: int| 0 <= q < p ==> entrant_page_ok(#[trigger] pages@[q]),
                    forall|j: int| 0 <= j < i ==> (#[trigger] spec_roster_entry(nodes@[j])) is Some,
                    player_map@ == roster_of(done + page_entries(pages@[p as int]).take(i as int)),
            {
                match nodes[i].roster_entry() {
                    Some(entry) => {
                        let ghost before = done + page_entries(pages@[p as int]).take(i as int);
                        player_map.insert(entry.0, entry.1);
                        proof {
                            let after = done + page_entries(pages@[p as int]).take(i + 1);
                            assert(after.drop_last() =~= before);
                            assert(after.last() == entry);
                        }
                    },
                    None => {
                        return Err(EloError::MissingField);
                    },
                }
            }
            proof {
                let upto = pages@.subrange(0, p + 1);
                assert(upto.drop_last() =~= pages@.subrange(0, p as int));
                assert(page_entries(pages@[p as int]).take(m as int) =~= page_entries(pages@[p as int]));
            }
        }
        proof {
            assert(pages@.subrange(0, n as int) =~= pages@);
        }
        Ok(player_map)
    }
}

} // verus!
