use matchmaker::errors::{ServiceError, SqliteError};
use matchmaker::live::{MessageData, SseMessageType};
use matchmaker::matching::{PotentialLover, Seeker};
use matchmaker::requests::{
    CreateMessageRequest, Gender, GreenTickMessagesRequest, SwipeUserRequest, SwipeUserResponse,
};
use matchmaker::service::Service;
use matchmaker::store::Store;

fn s(x: &str) -> String {
    x.to_string()
}

fn swipe(svc: &mut Service, from: &str, to: &str, love: bool) -> Result<SwipeUserResponse, ServiceError> {
    svc.swipe_user(&s(from), &SwipeUserRequest { swiped_uuid: s(to), love })
}

fn matched_pair(svc: &mut Service, a: &str, b: &str) -> String {
    assert_eq!(swipe(svc, a, b, true).unwrap(), SwipeUserResponse::Recorded);
    assert_eq!(swipe(svc, b, a, true).unwrap(), SwipeUserResponse::Matched);
    let lovers = svc.store.get_lovers(&s(b));
    let p = lovers.iter().find(|p| p.lover2 == a || p.lover1 == a).unwrap();
    p.love_uuid.clone()
}

fn message(poster: &str, love_uuid: &str, body: String) -> CreateMessageRequest {
    CreateMessageRequest { message: body, poster_uuid: s(poster), love_uuid: s(love_uuid) }
}

#[test]
fn scenario_match_chat_and_read_receipt() {
    let mut svc = Service::new(8);
    let love = matched_pair(&mut svc, "alice", "bob");
    let bob_conn = svc.registry.open_channel(&s("bob"));
    let id = svc.create_message(&s("alice"), &message("alice", &love, s("hello bob"))).unwrap();

    let events = svc.registry.take_events(&s("bob"), bob_conn).unwrap();
    assert_eq!(events.len(), 1);
    assert_eq!(events[0].message_type, SseMessageType::ChatMessage);
    match &events[0].data {
        MessageData::ChatMessage { uuid_love_room, uuid_message, message, poster_uuid, .. } => {
            assert_eq!(uuid_love_room, &love);
            assert_eq!(uuid_message, &id);
            assert_eq!(message, "hello bob");
            assert_eq!(poster_uuid, "alice");
        }
        other => panic!("unexpected event {:?}", other),
    }

    assert_eq!(svc.store.unseen_messages_count(&love, &s("alice")), 1);
    let alice_conn = svc.registry.open_channel(&s("alice"));
    svc.green_tick_messages(
        &s("bob"),
        &GreenTickMessagesRequest { love_uuid: love.clone(), lover_ticked_uuid: s("alice") },
    )
    .unwrap();
    assert_eq!(svc.store.unseen_messages_count(&love, &s("alice")), 0);
    let receipts = svc.registry.take_events(&s("alice"), alice_conn).unwrap();
    assert_eq!(receipts.len(), 1);
    assert_eq!(receipts[0].message_type, SseMessageType::GreenTickMessage);
    match &receipts[0].data {
        MessageData::GreenTickMessage { uuid_love_room } => assert_eq!(uuid_love_room, &love),
        other => panic!("unexpected event {:?}", other),
    }
}

#[test]
fn message_of_1001_chars_is_rejected_and_1000_accepted() {
    let mut svc = Service::new(4);
    let love = matched_pair(&mut svc, "a", "b");
    let too_long = "x".repeat(1001);
    match svc.create_message(&s("a"), &message("a", &love, too_long.clone())) {
        Err(ServiceError::ValueNotAccepted(v, why)) => {
            assert_eq!(v, too_long);
            assert_eq!(why, "Message content string is too long");
        }
        other => panic!("unexpected {:?}", other),
    }
    assert!(svc.create_message(&s("a"), &message("a", &love, "x".repeat(1000))).is_ok());
    assert_eq!(svc.store.get_love_messages(&love).len(), 1);
}

#[test]
fn message_length_counts_characters_not_bytes() {
    let mut svc = Service::new(4);
    let love = matched_pair(&mut svc, "a", "b");
    assert!(svc.create_message(&s("a"), &message("a", &love, "é".repeat(1000))).is_ok());
    assert!(matches!(
        svc.create_message(&s("a"), &message("a", &love, "é".repeat(1001))),
        Err(ServiceError::ValueNotAccepted(_, _))
    ));
}

#[test]
fn empty_message_is_rejected() {
    let mut svc = Service::new(4);
    let love = matched_pair(&mut svc, "a", "b");
    match svc.create_message(&s("a"), &message("a", &love, String::new())) {
        Err(ServiceError::ValueNotAccepted(v, why)) => {
            assert_eq!(v, "");
            assert_eq!(why, "Empty messages not accepted");
        }
        other => panic!("unexpected {:?}", other),
    }
}

#[test]
fn message_from_outsider_or_impostor_is_forbidden() {
    let mut svc = Service::new(4);
    let love = matched_pair(&mut svc, "a", "b");
    assert!(matches!(
        svc.create_message(&s("c"), &message("c", &love, s("hi"))),
        Err(ServiceError::ForbiddenQuery)
    ));
    assert!(matches!(
        svc.create_message(&s("c"), &message("a", &love, s("hi"))),
        Err(ServiceError::ForbiddenQuery)
    ));
    assert!(matches!(
        svc.create_message(&s("a"), &message("a", "no-such-pairing", s("hi"))),
        Err(ServiceError::ForbiddenQuery)
    ));
    assert_eq!(svc.store.get_love_messages(&love).len(), 0);
}

#[test]
fn message_is_published_to_both_members() {
    let mut svc = Service::new(4);
    let love = matched_pair(&mut svc, "a", "b");
    let ca = svc.registry.open_channel(&s("a"));
    let cb = svc.registry.open_channel(&s("b"));
    svc.create_message(&s("b"), &message("b", &love, s("yo"))).unwrap();
    assert_eq!(svc.registry.take_events(&s("a"), ca).unwrap().len(), 1);
    assert_eq!(svc.registry.take_events(&s("b"), cb).unwrap().len(), 1);
}

#[test]
fn second_accept_matches_in_either_order() {
    let mut svc = Service::new(1);
    assert_eq!(swipe(&mut svc, "b", "a", true).unwrap(), SwipeUserResponse::Recorded);
    assert_eq!(swipe(&mut svc, "a", "b", true).unwrap(), SwipeUserResponse::Matched);
    assert_eq!(svc.store.get_lovers(&s("a")).len(), 1);
    assert_eq!(svc.store.get_lovers(&s("b")).len(), 1);
    assert_eq!(svc.store.check_mutual_love(&s("a"), &s("b")), 2);
}

#[test]
fn rejection_never_pairs() {
    let mut svc = Service::new(1);
    assert_eq!(swipe(&mut svc, "a", "b", true).unwrap(), SwipeUserResponse::Recorded);
    assert_eq!(swipe(&mut svc, "b", "a", false).unwrap(), SwipeUserResponse::Recorded);
    assert_eq!(svc.store.get_lovers(&s("a")).len(), 0);
    assert_eq!(svc.store.check_mutual_love(&s("a"), &s("b")), 1);
}

#[test]
fn duplicate_swipe_is_a_conflict() {
    let mut svc = Service::new(1);
    assert!(swipe(&mut svc, "a", "b", false).is_ok());
    assert!(matches!(swipe(&mut svc, "a", "b", true), Err(ServiceError::Conflict)));
    assert!(matches!(swipe(&mut svc, "a", "b", false), Err(ServiceError::Conflict)));
    assert_eq!(svc.store.swiping_count(&s("a"), false), 1);
    assert_eq!(svc.store.swiping_count(&s("a"), true), 0);
}

#[test]
fn self_swipe_is_forbidden() {
    let mut svc = Service::new(1);
    assert!(matches!(swipe(&mut svc, "a", "a", true), Err(ServiceError::ForbiddenQuery)));
    assert_eq!(svc.store.swiping_count(&s("a"), true), 0);
}

#[test]
fn pairing_id_collision_rolls_back_the_swipe() {
    let mut store = Store::new();
    assert_eq!(store.swipe_user(&s("a"), &s("b"), true, s("love-ab"), 1).unwrap(), SwipeUserResponse::Recorded);
    assert_eq!(store.swipe_user(&s("b"), &s("a"), true, s("love-ab"), 2).unwrap(), SwipeUserResponse::Matched);
    assert_eq!(store.swipe_user(&s("c"), &s("d"), true, s("love-cd"), 3).unwrap(), SwipeUserResponse::Recorded);
    assert!(matches!(
        store.swipe_user(&s("d"), &s("c"), true, s("love-ab"), 4),
        Err(ServiceError::Sqlite(SqliteError::UnknownSqliteProblem))
    ));
    assert_eq!(store.swiping_count(&s("d"), true), 0);
    assert_eq!(store.get_lovers(&s("c")).len(), 0);
    assert_eq!(store.swipe_user(&s("d"), &s("c"), true, s("love-cd"), 5).unwrap(), SwipeUserResponse::Matched);
    let p = &store.get_lovers(&s("c"))[0];
    assert_eq!(p.lover1, "d");
    assert_eq!(p.lover2, "c");
    assert_eq!(p.creation_datetime, 5);
    assert!(!p.seen_by_lover1 && !p.seen_by_lover2);
}

#[test]
fn tick_love_sets_only_the_viewer_flag() {
    let mut store = Store::new();
    store.swipe_user(&s("a"), &s("b"), true, s("p"), 1).unwrap();
    store.swipe_user(&s("b"), &s("a"), true, s("p"), 2).unwrap();
    store.tick_love(&s("p"), &s("a")).unwrap();
    let p = &store.get_lovers(&s("a"))[0];
    assert_eq!(p.lover2, "a");
    assert!(p.seen_by_lover2);
    assert!(!p.seen_by_lover1);
    assert!(matches!(store.tick_love(&s("p"), &s("z")), Err(ServiceError::ForbiddenQuery)));
    assert!(matches!(
        store.tick_love(&s("q"), &s("a")),
        Err(ServiceError::Sqlite(SqliteError::NotFound))
    ));
}

#[test]
fn green_tick_requires_membership_and_counterpart() {
    let mut svc = Service::new(2);
    let love = matched_pair(&mut svc, "a", "b");
    svc.create_message(&s("a"), &message("a", &love, s("one"))).unwrap();
    svc.create_message(&s("b"), &message("b", &love, s("two"))).unwrap();
    let req = |ticked: &str| GreenTickMessagesRequest { love_uuid: love.clone(), lover_ticked_uuid: s(ticked) };
    assert!(matches!(svc.green_tick_messages(&s("c"), &req("a")), Err(ServiceError::ForbiddenQuery)));
    assert!(matches!(svc.green_tick_messages(&s("b"), &req("b")), Err(ServiceError::ForbiddenQuery)));
    assert!(matches!(
        svc.green_tick_messages(
            &s("b"),
            &GreenTickMessagesRequest { love_uuid: s("nope"), lover_ticked_uuid: s("a") }
        ),
        Err(ServiceError::Sqlite(SqliteError::NotFound))
    ));
    svc.green_tick_messages(&s("b"), &req("a")).unwrap();
    assert_eq!(svc.store.unseen_messages_count(&love, &s("a")), 0);
    assert_eq!(svc.store.unseen_messages_count(&love, &s("b")), 1);
}

#[test]
fn message_queries_are_scoped() {
    let mut svc = Service::new(2);
    let ab = matched_pair(&mut svc, "a", "b");
    let ac = matched_pair(&mut svc, "a", "c");
    let id = svc.create_message(&s("a"), &message("a", &ab, s("to b"))).unwrap();
    svc.create_message(&s("c"), &message("c", &ac, s("to a"))).unwrap();
    assert_eq!(svc.get_lover_messages(&s("a"), &s("a")).unwrap().len(), 2);
    assert_eq!(svc.get_lover_messages(&s("b"), &s("b")).unwrap().len(), 1);
    assert!(matches!(svc.get_lover_messages(&s("b"), &s("a")), Err(ServiceError::ForbiddenQuery)));
    assert_eq!(svc.get_love_messages(&s("b"), &ab).unwrap()[0].message, "to b");
    assert!(matches!(svc.get_love_messages(&s("b"), &ac), Err(ServiceError::ForbiddenQuery)));
    assert_eq!(svc.get_lovers(&s("a"), &s("a")).unwrap().len(), 2);
    assert!(matches!(svc.get_lovers(&s("b"), &s("a")), Err(ServiceError::ForbiddenQuery)));
    let (l1, l2) = svc.store.get_lovers_uuids_from_message_uuid(&id).unwrap();
    assert_eq!((l1.as_str(), l2.as_str()), ("b", "a"));
    assert!(matches!(
        svc.store.get_lovers_uuids_from_message_uuid(&s("missing")),
        Err(SqliteError::NotFound)
    ));
    assert!(svc.store.user_in_love_relation(&s("c"), &ac).is_ok());
    assert_eq!(svc.store.user_in_love_relation(&s("b"), &ac), Err(SqliteError::NotFound));
}

#[test]
fn statistics_count_verdicts() {
    let mut svc = Service::new(1);
    swipe(&mut svc, "a", "z", true).unwrap();
    swipe(&mut svc, "b", "z", true).unwrap();
    swipe(&mut svc, "c", "z", false).unwrap();
    swipe(&mut svc, "z", "c", false).unwrap();
    assert_eq!(svc.loved_count(&s("z"), &s("z")).unwrap(), 2);
    assert_eq!(svc.rejected_count(&s("z"), &s("z")).unwrap(), 1);
    assert_eq!(svc.loving_count(&s("z"), &s("z")).unwrap(), 0);
    assert_eq!(svc.rejecting_count(&s("z"), &s("z")).unwrap(), 1);
    assert!(matches!(svc.loved_count(&s("a"), &s("z")), Err(ServiceError::ForbiddenQuery)));
}

fn profile(uuid: &str, gender: Gender, age: u8, distance: u64, last_seen: i64) -> PotentialLover {
    PotentialLover {
        uuid: s(uuid),
        name: s(uuid),
        last_seen,
        age,
        gender,
        description: String::new(),
        distance,
        photo_urls: None,
        photo_display_orders: None,
    }
}

fn seeker(uuid: &str) -> Seeker {
    Seeker {
        uuid: s(uuid),
        looking_for: Gender::Female,
        search_radius: 10,
        looking_for_age_min: 20,
        looking_for_age_max: 30,
    }
}

#[test]
fn candidate_is_the_freshest_eligible_profile() {
    let store = Store::new();
    let pool = vec![
        profile("old", Gender::Female, 25, 1_000, 100),
        profile("fresh", Gender::Female, 25, 2_000, 300),
        profile("male", Gender::Male, 25, 1_000, 900),
        profile("young", Gender::Female, 19, 1_000, 900),
        profile("senior", Gender::Female, 31, 1_000, 900),
        profile("far", Gender::Female, 25, 10_001, 900),
        profile("me", Gender::Female, 25, 0, 900),
    ];
    let c = store.find_love_target(&seeker("me"), &pool).unwrap();
    assert_eq!(c.uuid, "fresh");
    assert_eq!(store.potential_matches_count(&seeker("me"), &pool), 2);
}

#[test]
fn candidate_exactly_on_the_radius_is_included() {
    let store = Store::new();
    let pool = vec![profile("edge", Gender::Female, 25, 10_000, 1)];
    assert_eq!(store.find_love_target(&seeker("me"), &pool).unwrap().uuid, "edge");
    let pool = vec![profile("beyond", Gender::Female, 25, 10_001, 1)];
    assert_eq!(store.find_love_target(&seeker("me"), &pool).unwrap_err(), SqliteError::NotFound);
}

#[test]
fn swiped_candidates_are_never_shown_again() {
    let mut svc = Service::new(1);
    let pool = vec![
        profile("x", Gender::Female, 25, 1, 500),
        profile("y", Gender::Female, 25, 1, 400),
    ];
    assert_eq!(svc.store.find_love_target(&seeker("me"), &pool).unwrap().uuid, "x");
    swipe(&mut svc, "me", "x", false).unwrap();
    assert_eq!(svc.store.find_love_target(&seeker("me"), &pool).unwrap().uuid, "y");
    swipe(&mut svc, "me", "y", true).unwrap();
    assert!(matches!(
        svc.find_lover(&seeker("me"), &pool),
        Err(ServiceError::NoPotentialMatchFound)
    ));
    assert_eq!(svc.matching_potential(&s("me"), &seeker("me"), &pool).unwrap(), 0);
}

#[test]
fn any_preference_matches_only_profiles_stored_as_any() {
    let store = Store::new();
    let mut who = seeker("me");
    who.looking_for = Gender::Any;
    let pool = vec![
        profile("m", Gender::Male, 25, 1, 900),
        profile("f", Gender::Female, 25, 1, 800),
        profile("edge", Gender::Any, 25, 10_000, 7),
    ];
    assert_eq!(store.find_love_target(&who, &pool).unwrap().uuid, "edge");
    assert_eq!(store.potential_matches_count(&who, &pool), 1);
    let only_male = vec![profile("m1", Gender::Male, 25, 1, 1), profile("m2", Gender::Male, 25, 1, 2)];
    assert_eq!(store.find_love_target(&who, &only_male).unwrap_err(), SqliteError::NotFound);
}

#[test]
fn ties_keep_pool_order() {
    let store = Store::new();
    let pool = vec![
        profile("first", Gender::Female, 25, 1, 7),
        profile("second", Gender::Female, 25, 1, 7),
    ];
    assert_eq!(store.find_love_target(&seeker("me"), &pool).unwrap().uuid, "first");
    assert_eq!(store.potential_matches_count(&seeker("me"), &pool), 2);
}

#[test]
fn empty_pool_gives_not_found() {
    let store = Store::new();
    assert_eq!(store.find_love_target(&seeker("me"), &Vec::new()).unwrap_err(), SqliteError::NotFound);
}

#[test]
fn clashing_identifiers_are_replaced_by_unused_ones() {
    let mut store = Store::new();
    store.swipe_user(&s("a"), &s("b"), true, s("love-ab"), 1).unwrap();
    store.swipe_user(&s("b"), &s("a"), true, s("love-ab"), 2).unwrap();
    assert_eq!(store.fresh_pairing_id(s("other")), "other");
    let fresh = store.fresh_pairing_id(s("love-ab"));
    assert_ne!(fresh, "love-ab");
    assert_eq!(store.swipe_user(&s("c"), &s("d"), true, fresh.clone(), 3).unwrap(), SwipeUserResponse::Recorded);
    assert_eq!(store.swipe_user(&s("d"), &s("c"), true, fresh, 4).unwrap(), SwipeUserResponse::Matched);

    store.create_message(&s("a"), &message("a", "love-ab", s("hi")), s("m1"), 5).unwrap();
    assert_eq!(store.fresh_message_id(s("m2")), "m2");
    let fresh = store.fresh_message_id(s("m1"));
    assert_ne!(fresh, "m1");
    assert_eq!(store.create_message(&s("b"), &message("b", "love-ab", s("yo")), fresh.clone(), 6).unwrap(), fresh);
}
