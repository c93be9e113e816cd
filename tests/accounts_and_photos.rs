use matchmaker::errors::ServiceError;
use matchmaker::photos::{
    next_photo_order, photo_order, shift_order_photos, switch_photos, Photo, PhotoType,
};
use matchmaker::requests::{
    check_description, Gender, CreateMessageRequest, SwipeUserRequest, SwipeUserResponse,
};
use matchmaker::service::Service;
use matchmaker::store::Store;

fn s(x: &str) -> String {
    x.to_string()
}

#[test]
fn deleting_an_account_cascades_to_its_rows() {
    let mut svc = Service::new(4);
    for (a, b) in [("u", "v"), ("v", "u"), ("v", "w"), ("w", "v")] {
        svc.swipe_user(&s(a), &SwipeUserRequest { swiped_uuid: s(b), love: true }).unwrap();
    }
    svc.swipe_user(&s("x"), &SwipeUserRequest { swiped_uuid: s("u"), love: false }).unwrap();
    let uv = svc.store.get_lovers(&s("u"))[0].love_uuid.clone();
    let vw = svc
        .store
        .get_lovers(&s("w"))
        .iter()
        .map(|p| p.love_uuid.clone())
        .next()
        .unwrap();
    svc.create_message(&s("u"), &CreateMessageRequest { message: s("hi"), poster_uuid: s("u"), love_uuid: uv.clone() })
        .unwrap();
    svc.create_message(&s("w"), &CreateMessageRequest { message: s("yo"), poster_uuid: s("w"), love_uuid: vw.clone() })
        .unwrap();
    svc.registry.open_channel(&s("u"));

    assert!(matches!(svc.delete_user(&s("v"), &s("u")), Err(ServiceError::ForbiddenQuery)));
    svc.delete_user(&s("u"), &s("u")).unwrap();

    assert_eq!(svc.store.get_lovers(&s("u")).len(), 0);
    assert_eq!(svc.store.get_lovers(&s("v")).len(), 1);
    assert_eq!(svc.store.get_love_messages(&uv).len(), 0);
    assert_eq!(svc.store.get_love_messages(&vw).len(), 1);
    assert_eq!(svc.store.swiped_count(&s("u"), false), 0);
    assert_eq!(svc.store.swiping_count(&s("v"), true), 1);
    assert!(!svc.registry.is_open(&s("u")));
    // the identity can start over
    let again = svc.swipe_user(&s("v"), &SwipeUserRequest { swiped_uuid: s("u"), love: true });
    assert_eq!(again.unwrap(), SwipeUserResponse::Recorded);
}

#[test]
fn deleting_an_unknown_account_changes_nothing() {
    let mut store = Store::new();
    store.swipe_user(&s("a"), &s("b"), true, s("p"), 1).unwrap();
    store.delete_user_by_uuid(&s("zzz"));
    assert_eq!(store.swiping_count(&s("a"), true), 1);
}

fn photo(uuid: &str, order: usize) -> Photo {
    Photo { photo_id: order, photo_uuid: s(uuid), user_uuid: s("me"), url: format!("https://img/{}", uuid), display_order: order }
}

#[test]
fn photo_positions_follow_additions_and_removals() {
    let mut photos = vec![photo("a", 1), photo("b", 2), photo("c", 3)];
    assert_eq!(next_photo_order(&photos).unwrap(), 4);
    assert_eq!(photo_order(&photos, &s("b")).unwrap(), 2);
    assert!(matches!(photo_order(&photos, &s("nope")), Err(ServiceError::ForbiddenQuery)));
    photos.retain(|p| p.photo_uuid != "b");
    shift_order_photos(&mut photos, 2);
    assert_eq!(photos.iter().map(|p| p.display_order).collect::<Vec<_>>(), vec![1, 2]);
}

#[test]
fn seventh_photo_is_refused() {
    let photos: Vec<Photo> = (1..=6).map(|i| photo(&format!("p{}", i), i)).collect();
    match next_photo_order(&photos) {
        Err(ServiceError::ValueNotAccepted(v, why)) => {
            assert_eq!(v, "7");
            assert_eq!(why, "You can only have up to 6 photos");
        }
        other => panic!("unexpected {:?}", other),
    }
    assert_eq!(next_photo_order(&photos[..5].to_vec()).unwrap(), 6);
}

#[test]
fn switching_photos_swaps_their_positions() {
    let mut photos = vec![photo("a", 1), photo("b", 2), photo("c", 3)];
    switch_photos(&mut photos, &s("a"), &s("c")).unwrap();
    assert_eq!(photos.iter().map(|p| p.display_order).collect::<Vec<_>>(), vec![3, 2, 1]);
    assert!(matches!(switch_photos(&mut photos, &s("a"), &s("zz")), Err(ServiceError::ForbiddenQuery)));
    assert_eq!(photos.iter().map(|p| p.display_order).collect::<Vec<_>>(), vec![3, 2, 1]);
}

#[test]
fn photo_types_are_parsed_from_content_types() {
    assert_eq!(PhotoType::from_content_type(&s("image/png")).unwrap(), PhotoType::Png);
    assert_eq!(PhotoType::from_content_type(&s("image/jpg")).unwrap(), PhotoType::Jpg);
    assert_eq!(PhotoType::from_content_type(&s("image/jpeg")).unwrap(), PhotoType::Jpeg);
    assert_eq!(PhotoType::Jpeg.as_content_type(), "image/jpeg");
    match PhotoType::from_content_type(&s("image/gif")) {
        Err(ServiceError::ValueNotAccepted(v, why)) => {
            assert_eq!(v, "image/gif");
            assert_eq!(why, "Chose between png, jpg and jpeg.");
        }
        other => panic!("unexpected {:?}", other),
    }
}

#[test]
fn description_is_limited_to_1000_characters() {
    assert!(check_description(&"ü".repeat(1000)).is_ok());
    match check_description(&"d".repeat(1001)) {
        Err(ServiceError::ValueNotAccepted(_, why)) => assert_eq!(why, "Description string is too long"),
        other => panic!("unexpected {:?}", other),
    }
}

#[test]
fn genders_have_stored_names_and_preferences() {
    assert_eq!(Gender::Male.as_str(), "male");
    assert_eq!(Gender::Female.as_str(), "female");
    assert_eq!(Gender::Any.as_str(), "any");
    assert!(!Gender::Any.accepts(Gender::Male));
    assert!(Gender::Any.accepts(Gender::Any));
    assert!(Gender::Female.accepts(Gender::Female));
    assert!(!Gender::Female.accepts(Gender::Male));
}
