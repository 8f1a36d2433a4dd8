use smashgg_elo::error::EloError;
use smashgg_elo::request::{Content, ContentType, Variables, MAX_ENTRANTS, MAX_SETS};
use smashgg_elo::response::{
    Data, Entrant, Entrants, Event, Events, Nodes, PageInfo, Participants, PostResponse, Score,
    SetInfo, Sets, Slots, Standing, Stats, Tournament, User, Videogame,
};
use smashgg_elo::text::{assemble_cleaned, clean_string, table_name};

fn slot(id: i32, score: Option<i32>) -> Slots {
    Slots {
        entrant: Some(Entrant { id: Some(id) }),
        standing: Some(Standing { stats: Stats { score: Score { value: score } } }),
    }
}

fn set_node(a: i32, sa: Option<i32>, b: i32, sb: Option<i32>, t: i64) -> Nodes {
    Nodes { id: Some(1), participants: None, completed_at: Some(t), slots: Some(vec![slot(a, sa), slot(b, sb)]) }
}

fn sets_response(nodes: Vec<Nodes>, pages: i32) -> PostResponse {
    PostResponse {
        data: Data {
            tournament: None,
            event: Some(Event {
                entrants: None,
                sets: Some(Sets { page_info: Some(PageInfo { total_pages: pages }), nodes: Some(nodes) }),
            }),
        },
    }
}

fn entrant_node(id: i32, tag: &str, uid: Option<i32>) -> Nodes {
    Nodes {
        id: Some(id),
        participants: Some(vec![Participants { gamer_tag: tag.to_string(), user: User { id: uid } }]),
        completed_at: None,
        slots: None,
    }
}

fn entrants_response(nodes: Vec<Nodes>, pages: i32) -> PostResponse {
    PostResponse {
        data: Data {
            tournament: None,
            event: Some(Event {
                entrants: Some(Entrants { page_info: Some(PageInfo { total_pages: pages }), nodes: Some(nodes) }),
                sets: None,
            }),
        },
    }
}

#[test]
fn sets_info_reversed_with_forfeit_sentinel() {
    let r = sets_response(vec![set_node(1, Some(3), 2, Some(1), 200), set_node(3, None, 4, Some(0), 100)], 2);
    let v = r.get_sets_info().unwrap();
    assert_eq!(
        v,
        vec![
            SetInfo { player_one_id: 3, player_one_score: -1, player_two_id: 4, player_two_score: 0, time: 100 },
            SetInfo { player_one_id: 1, player_one_score: 3, player_two_id: 2, player_two_score: 1, time: 200 },
        ]
    );
    assert_eq!(r.get_total_pages(), Ok(2));
}

#[test]
fn sets_info_missing_fields() {
    let mut bad = set_node(1, Some(3), 2, Some(1), 200);
    bad.completed_at = None;
    assert_eq!(sets_response(vec![bad], 1).get_sets_info().err(), Some(EloError::MissingField));
    let mut one_slot = set_node(1, Some(3), 2, Some(1), 200);
    one_slot.slots = Some(vec![slot(1, Some(1))]);
    assert_eq!(sets_response(vec![one_slot], 1).get_sets_info().err(), Some(EloError::MissingField));
    let empty = PostResponse { data: Data { tournament: None, event: None } };
    assert_eq!(empty.get_sets_info().err(), Some(EloError::MissingField));
    assert_eq!(empty.get_total_pages(), Err(EloError::MissingField));
}

#[test]
fn event_choice() {
    let r = PostResponse {
        data: Data {
            tournament: Some(Tournament {
                events: vec![
                    Events { id: 11, name: "Singles".to_string(), videogame: Videogame { name: "Melee".to_string() } },
                    Events { id: 12, name: "Doubles".to_string(), videogame: Videogame { name: "Ultimate".to_string() } },
                ],
            }),
            event: None,
        },
    };
    assert_eq!(r.get_event_info(1), Ok((12, "Ultimate".to_string(), "Doubles".to_string())));
    assert_eq!(r.get_event_info(2), Err(EloError::NoSuchEvent));
    assert_eq!(r.get_event_info(-1), Err(EloError::NoSuchEvent));
    let none = PostResponse { data: Data { tournament: None, event: None } };
    assert_eq!(none.get_event_info(0), Err(EloError::MissingField));
}

#[test]
fn roster_from_pages() {
    let pages = vec![
        entrants_response(vec![entrant_node(1, "Alpha", Some(1001)), entrant_node(2, "Beta", Some(1002))], 2),
        entrants_response(vec![entrant_node(3, "Gamma", Some(1003)), entrant_node(2, "Beta2", Some(2002))], 2),
    ];
    assert_eq!(pages[0].get_entrant_pages(), Ok(2));
    let m = PostResponse::construct_players(&pages).unwrap();
    assert_eq!(m.len(), 3);
    assert_eq!(m[&1], ("Alpha".to_string(), 1001));
    assert_eq!(m[&2], ("Beta2".to_string(), 2002));
    assert_eq!(m[&3], ("Gamma".to_string(), 1003));
    let bad = vec![entrants_response(vec![entrant_node(1, "Alpha", None)], 1)];
    assert_eq!(PostResponse::construct_players(&bad).err(), Some(EloError::MissingField));
    assert_eq!(PostResponse::construct_players(&Vec::new()).map(|m| m.len()), Ok(0));
}

#[test]
fn content_per_kind() {
    let mut c = Content::new();
    assert_eq!(c.query, "");
    c.variables.event_id = Some(5);
    c.edit_content(ContentType::Event);
    assert_eq!(c.variables.per_page, Some(MAX_ENTRANTS));
    assert!(c.query.contains("totalPages"));
    c.edit_content(ContentType::Info);
    assert_eq!(c.variables.per_page, Some(MAX_SETS));
    assert!(c.query.contains("completedAt"));
    c.edit_content(ContentType::Page);
    assert_eq!(c.variables.per_page, Some(499));
    assert!(c.query.contains("gamerTag"));
    c.edit_content(ContentType::SetPages);
    assert_eq!(c.variables.per_page, Some(70));
    c.edit_content(ContentType::Init);
    assert_eq!(c.variables.per_page, None);
    assert!(c.query.contains("tournament(slug"));
    assert_eq!(c.variables.event_id, Some(5));
    let v = Variables::new();
    assert!(v.tournament_slug.is_none() && v.event_id.is_none() && v.page.is_none() && v.per_page.is_none());
}

#[test]
fn clean_string_keeps_lowercased_alphanumerics() {
    assert_eq!(clean_string("Super Smash Bros. Melee"), "supersmashbrosmelee");
    assert_eq!(clean_string("Street Fighter 6"), "streetfighter6");
    assert_eq!(clean_string("ÇA-VA!"), "çava");
    assert_eq!(clean_string(""), "");
    assert_eq!(table_name("Tekken 8"), Ok("tekken8".to_string()));
    assert_eq!(table_name("!!! ---"), Err(EloError::EmptyTableName));
}

#[test]
fn assemble_cleaned_keeps_flagged_parts() {
    let parts = vec![
        (true, "a".to_string()),
        (false, " ".to_string()),
        (true, "i\u{307}".to_string()),
        (false, "!".to_string()),
        (true, "7".to_string()),
    ];
    assert_eq!(assemble_cleaned(&parts), "ai\u{307}7");
    assert_eq!(assemble_cleaned(&Vec::new()), "");
    assert_eq!(clean_string("İstanbul 2024"), "i\u{307}stanbul2024");
}
