//! The collection locator: from the name of a collection to its identifier
//! on the server, and the request that links an asset into it.

use crate::text::text_view;
use vstd::prelude::*;
use vstd::string::*;

verus! {

/// The name of the header that carries the credential.
pub const API_KEY_HEADER: &'static str = "x-api-key";

/// A collection as the server lists it.
#[derive(Clone, Debug, PartialEq, Eq)]
pub struct Collection {
    pub id: String,
    pub name: String,
}

/// A collection as mathematical values.
pub struct CollectionInfo {
    pub id: Seq<char>,
    pub name: Seq<char>,
}

impl View for Collection {
    type V = CollectionInfo;

    open spec fn view(&self) -> CollectionInfo {
        CollectionInfo { id: self.id@, name: self.name@ }
    }
}

/// The views of a listing.
pub open spec fn collection_views(listing: Seq<Collection>) -> Seq<CollectionInfo> {
    listing.map_values(|c: Collection| c@)
}

/// The address of the collection listing.
pub open spec fn listing_url(base_url: Seq<char>) -> Seq<char> {
    base_url + "/api/albums"@
}

/// The address at which assets are linked into a collection.
pub open spec fn link_url(base_url: Seq<char>, collection_id: Seq<char>) -> Seq<char> {
    base_url + "/api/albums/"@ + collection_id + "/assets"@
}

/// The identifier of the first collection of the listing whose name is
/// exactly `name`; `None` if no collection has that name.
pub open spec fn located(listing: Seq<CollectionInfo>, name: Seq<char>) -> Option<Seq<char>>
    decreases listing.len(),
{
    if listing.len() == 0 {
        None
    } else if listing.first().name == name {
        Some(listing.first().id)
    } else {
        located(listing.drop_first(), name)
    }
}

/// Collections of other names at the head of a listing do not count.
proof fn lemma_located_after(listing: Seq<CollectionInfo>, name: Seq<char>, from: int)
    requires
        0 <= from <= listing.len(),
        forall|j: int| 0 <= j < from ==> (#[trigger] listing[j]).name != name,
    ensures
        located(listing, name) == located(listing.subrange(from, listing.len() as int), name),
    decreases from,
{
    if from == 0 {
        assert(listing.subrange(0, listing.len() as int) =~= listing);
    } else {
        lemma_located_after(listing, name, from - 1);
        let tail = listing.subrange(from - 1, listing.len() as int);
        assert(tail.first() == listing[from - 1]);
        assert(tail.drop_first() =~= listing.subrange(from, listing.len() as int));
    }
}

/// The place of the first collection named `name` at or after `from`; the
/// length of the listing if there is none.
fn first_named(listing: &Vec<Collection>, key: &String, from: usize) -> (r: usize)
    requires
        from <= listing@.len(),
    ensures
        from <= r <= listing@.len(),
        r < listing@.len() ==> listing@[r as int].name@ == key@,
        forall|j: int| from <= j < r ==> (#[trigger] collection_views(listing@)[j]).name != key@,
{
    let mut i: usize = from;
    while i < listing.len() && !(listing[i].name == *key)
        invariant
            from <= i <= listing@.len(),
            forall|j: int|
                from <= j < i ==> (#[trigger] collection_views(listing@)[j]).name != key@,
        decreases listing@.len() - i,
    {
        i = i + 1;
    }
    i
}

/// Finds the collection named `name` in the server's listing and returns
/// its identifier. Of several collections of that name the first counts.
pub fn find_collection(listing: &Vec<Collection>, name: &str) -> (r: Option<String>)
    ensures
        text_view(r) == located(collection_views(listing@), name@),
        r is None <==> forall|i: int|
            0 <= i < listing@.len() ==> (#[trigger] listing@[i]).name@ != name@,
        r matches Some(id) ==> exists|i: int|
            0 <= i < listing@.len() && (#[trigger] listing@[i]).name@ == name@ && listing@[i].id@
                == id@ && forall|j: int| 0 <= j < i ==> (#[trigger] listing@[j]).name@ != name@,
{
    let key: String = name.to_owned();
    let at: usize = first_named(listing, &key, 0);
    proof {
        let views = collection_views(listing@);
        lemma_located_after(views, name@, at as int);
        if at < listing@.len() {
            assert(views.subrange(at as int, views.len() as int).first() == views[at as int]);
        }
        assert forall|j: int| 0 <= j < at implies (#[trigger] listing@[j]).name@ != name@ by {
            assert(views[j].name != name@);
        }
    }
    if at < listing.len() {
        Some(listing[at].id.clone())
    } else {
        None
    }
}

/// The address of the collection listing on the server at `base_url`.
pub fn listing_url_of(base_url: &str) -> (r: String)
    ensures
        r@ == listing_url(base_url@),
{
    let mut url = base_url.to_owned();
    url.append("/api/albums");
    url
}

/// The address at which assets are linked into the collection
/// `collection_id` on the server at `base_url`.
pub fn link_url_of(base_url: &str, collection_id: &str) -> (r: String)
    ensures
        r@ == link_url(base_url@, collection_id@),
{
    let mut url = base_url.to_owned();
    url.append("/api/albums/");
    url.append(collection_id);
    url.append("/assets");
    url
}

} // verus!
