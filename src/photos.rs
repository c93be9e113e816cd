use vstd::prelude::*;

use crate::errors::ServiceError;

verus! {

/// Most photos a profile may hold.
pub const MAX_PHOTOS: usize = 6;

/// A profile photo; `display_order` runs from 1 to the number of photos.
#[derive(Debug)]
pub struct Photo {
    pub photo_id: usize,
    pub photo_uuid: String,
    pub user_uuid: String,
    pub url: String,
    pub display_order: usize,
}

impl Clone for Photo {
    fn clone(&self) -> (r: Self)
        ensures
            r == *self,
    {
        Photo {
            photo_id: self.photo_id,
            photo_uuid: self.photo_uuid.clone(),
            user_uuid: self.user_uuid.clone(),
            url: self.url.clone(),
            display_order: self.display_order,
        }
    }
}

/// Image formats accepted for a photo upload.
#[derive(Debug, Clone, Copy, PartialEq, Eq, Structural)]
pub enum PhotoType {
    Png,
    Jpg,
    Jpeg,
}

/// The content type under which each format is uploaded.
pub open spec fn photo_type_text(t: PhotoType) -> Seq<char> {
    match t {
        PhotoType::Png => "image/png"@,
        PhotoType::Jpg => "image/jpg"@,
        PhotoType::Jpeg => "image/jpeg"@,
    }
}

impl PhotoType {
    /// The format named by a content type; refused unless it is one of
    /// `image/png`, `image/jpg` and `image/jpeg`.
    pub fn from_content_type(input: &String) -> (r: Result<PhotoType, ServiceError>)
        ensures
            match r {
                Ok(t) => photo_type_text(t) == input@,
                Err(e) => (forall|t: PhotoType| photo_type_text(t) != input@) && match e {
                    ServiceError::ValueNotAccepted(v, why) => v@ == input@ && why@
                        == "Chose between png, jpg and jpeg."@,
                    _ => false,
                },
            },
    {
        if *input == "image/png".to_string() {
            Ok(PhotoType::Png)
        } else if *input == "image/jpg".to_string() {
            Ok(PhotoType::Jpg)
        } else if *input == "image/jpeg".to_string() {
            Ok(PhotoType::Jpeg)
        } else {
            proof {
                assert forall|t: PhotoType| photo_type_text(t) != input@ by {
                    match t {
                        PhotoType::Png => {},
                        PhotoType::Jpg => {},
                        PhotoType::Jpeg => {},
                    }
                }
            }
            Err(
                ServiceError::ValueNotAccepted(
                    input.clone(),
                    "Chose between png, jpg and jpeg.".to_string(),
                ),
            )
        }
    }

    /// The content type of this format.
    pub fn as_content_type(&self) -> (r: String)
        ensures
            r@ == photo_type_text(*self),
    {
        match self {
            PhotoType::Png => "image/png".to_string(),
            PhotoType::Jpg => "image/jpg".to_string(),
            PhotoType::Jpeg => "image/jpeg".to_string(),
        }
    }
}

/// Display position of a new photo added to `photos`, the profile's current
/// photos: one past the last; refused once the profile holds `MAX_PHOTOS`.
pub fn next_photo_order(photos: &Vec<Photo>) -> (r: Result<usize, ServiceError>)
    ensures
        photos@.len() < MAX_PHOTOS ==> r == Ok::<usize, ServiceError>((photos@.len() + 1) as usize),
        photos@.len() >= MAX_PHOTOS ==> match r {
            Err(ServiceError::ValueNotAccepted(_, why)) => why@ == "You can only have up to 6 photos"@,
            _ => false,
        },
{
    if photos.len() >= MAX_PHOTOS {
        let order = photos.len().saturating_add(1);
        return Err(
            ServiceError::ValueNotAccepted(
                order.to_string(),
                "You can only have up to 6 photos".to_string(),
            ),
        );
    }
    Ok(photos.len() + 1)
}

/// Display position of the photo `photo_uuid` among `photos`, the profile's
/// own photos; `ForbiddenQuery` when the profile does not own it.
pub fn photo_order(photos: &Vec<Photo>, photo_uuid: &String) -> (r: Result<usize, ServiceError>)
    ensures
        r is Err <==> forall|i: int| 0 <= i < photos@.len() ==> #[trigger] photos@[i].photo_uuid@
            != photo_uuid@,
        r is Err ==> r == Err::<usize, ServiceError>(ServiceError::ForbiddenQuery),
        match r {
            Ok(o) => exists|i: int|
                0 <= i < photos@.len() && #[trigger] photos@[i].photo_uuid@ == photo_uuid@
                    && photos@[i].display_order == o,
            Err(_) => true,
        },
{
    let mut i: usize = 0;
    while i < photos.len()
        invariant
            i <= photos@.len(),
            forall|k: int| 0 <= k < i ==> #[trigger] photos@[k].photo_uuid@ != photo_uuid@,
        decreases photos@.len() - i,
    {
        if photos[i].photo_uuid == *photo_uuid {
            return Ok(photos[i].display_order);
        }
        i += 1;
    }
    Err(ServiceError::ForbiddenQuery)
}

/// `p` after the photo at position `removed` left the profile: photos shown
/// after it move up one place.
pub open spec fn shifted(p: Photo, removed: usize) -> Photo {
    Photo {
        display_order: if p.display_order > removed {
            (p.display_order - 1) as usize
        } else {
            p.display_order
        },
        ..p
    }
}

/// Closes the gap left by the photo at position `order_shift`.
pub fn shift_order_photos(photos: &mut Vec<Photo>, order_shift: usize)
    ensures
        final(photos)@.len() == old(photos)@.len(),
        forall|k: int|
            0 <= k < old(photos)@.len() ==> #[trigger] final(photos)@[k] == shifted(
                old(photos)@[k],
                order_shift,
            ),
{
    let ghost before = photos@;
    let mut i: usize = 0;
    while i < photos.len()
        invariant
            photos@.len() == before.len(),
            i <= before.len(),
            forall|k: int| 0 <= k < i ==> #[trigger] photos@[k] == shifted(before[k], order_shift),
            forall|k: int| i <= k < before.len() ==> #[trigger] photos@[k] == before[k],
        decreases before.len() - i,
    {
        if photos[i].display_order > order_shift {
            let mut p = photos[i].clone();
            p.display_order = p.display_order - 1;
            photos.set(i, p);
        }
        i += 1;
    }
}

/// `p` after the photos `uuid1` (at position `order1`) and `uuid2` (at
/// position `order2`) traded places.
pub open spec fn switched(
    p: Photo,
    uuid1: Seq<char>,
    order1: usize,
    uuid2: Seq<char>,
    order2: usize,
) -> Photo {
    if p.photo_uuid@ == uuid1 {
        Photo { display_order: order2, ..p }
    } else if p.photo_uuid@ == uuid2 {
        Photo { display_order: order1, ..p }
    } else {
        p
    }
}

/// `after` is `before` after photos `uuid1` and `uuid2`, found at positions
/// `order1` and `order2`, traded places.
pub open spec fn switched_all(
    before: Seq<Photo>,
    after: Seq<Photo>,
    uuid1: Seq<char>,
    order1: usize,
    uuid2: Seq<char>,
    order2: usize,
) -> bool {
    &&& exists|i: int|
        0 <= i < before.len() && #[trigger] before[i].photo_uuid@ == uuid1 && before[i].display_order == order1
    &&& exists|i: int|
        0 <= i < before.len() && #[trigger] before[i].photo_uuid@ == uuid2 && before[i].display_order == order2
    &&& after.len() == before.len()
    &&& forall|k: int|
        0 <= k < before.len() ==> #[trigger] after[k] == switched(before[k], uuid1, order1, uuid2, order2)
}

/// Swaps the display positions of photos `uuid1` and `uuid2`, both of which
/// must belong to the profile whose photos are `photos`.
pub fn switch_photos(photos: &mut Vec<Photo>, uuid1: &String, uuid2: &String) -> (r: Result<
    (),
    ServiceError,
>)
    ensures
        r is Err <==> (forall|i: int| 0 <= i < old(photos)@.len() ==> #[trigger] old(photos)@[i].photo_uuid@
            != uuid1@) || (forall|i: int| 0 <= i < old(photos)@.len() ==> #[trigger] old(
            photos,
        )@[i].photo_uuid@ != uuid2@),
        r is Err ==> r == Err::<(), ServiceError>(ServiceError::ForbiddenQuery) && final(photos)@ == old(
            photos,
        )@,
        r is Ok ==> exists|order1: usize, order2: usize| #[trigger]
            switched_all(old(photos)@, final(photos)@, uuid1@, order1, uuid2@, order2),
{
    let order1 = match photo_order(photos, uuid1) {
        Ok(o) => o,
        Err(e) => {
            return Err(e);
        },
    };
    let order2 = match photo_order(photos, uuid2) {
        Ok(o) => o,
        Err(e) => {
            return Err(e);
        },
    };
    let ghost before = photos@;
    let mut i: usize = 0;
    while i < photos.len()
        invariant
            photos@.len() == before.len(),
            i <= before.len(),
            exists|x: int|
                0 <= x < before.len() && #[trigger] before[x].photo_uuid@ == uuid1@ && before[x].display_order == order1,
            exists|x: int|
                0 <= x < before.len() && #[trigger] before[x].photo_uuid@ == uuid2@ && before[x].display_order == order2,
            forall|k: int|
                0 <= k < i ==> #[trigger] photos@[k] == switched(
                    before[k],
                    uuid1@,
                    order1,
                    uuid2@,
                    order2,
                ),
            forall|k: int| i <= k < before.len() ==> #[trigger] photos@[k] == before[k],
        decreases before.len() - i,
    {
        if photos[i].photo_uuid == *uuid1 {
            let mut p = photos[i].clone();
            p.display_order = order2;
            photos.set(i, p);
        } else if photos[i].photo_uuid == *uuid2 {
            let mut p = photos[i].clone();
            p.display_order = order1;
            photos.set(i, p);
        }
        i += 1;
    }
    assert(switched_all(before, photos@, uuid1@, order1, uuid2@, order2));
    Ok(())
}

} // verus!
