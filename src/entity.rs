//! The collections of the service, the URLs of its requests, and the shapes
//! shared by all records: a paginated envelope and a link to another record.
use vstd::prelude::*;

use crate::decimal::{decimal, lemma_decimal_injective, push_decimal};

verus! {

/// The collections that the service publishes.
#[derive(Clone, Copy, Debug, PartialEq, Eq, Structural)]
pub enum EntityTypes {
    Character,
    Episode,
    Location,
}

/// The address of the public service, which a fixture may replace.
pub open spec fn default_base() -> Seq<char> {
    "https://rickandmortyapi.com"@
}

/// The path of a collection below the service's address.
pub open spec fn collection_path(kind: EntityTypes) -> Seq<char> {
    match kind {
        EntityTypes::Character => "/api/character"@,
        EntityTypes::Episode => "/api/episode"@,
        EntityTypes::Location => "/api/location"@,
    }
}

/// The ids of `ids` in base ten, in order, separated by commas.
pub open spec fn id_list(ids: Seq<i64>) -> Seq<char>
    decreases ids.len(),
{
    if ids.len() == 0 {
        Seq::empty()
    } else if ids.len() == 1 {
        decimal(ids[0] as int)
    } else {
        id_list(ids.drop_last()) + seq![','] + decimal(ids.last() as int)
    }
}

/// A client of one collection of the service.
pub struct API {
    entity_type: EntityTypes,
    base: String,
}

impl API {
    /// The collection that this client asks.
    pub closed spec fn kind(&self) -> EntityTypes {
        self.entity_type
    }

    /// The address of the service that this client asks.
    pub closed spec fn base(&self) -> Seq<char> {
        self.base@
    }

    /// The URL of the whole collection.
    pub open spec fn collection(&self) -> Seq<char> {
        self.base() + collection_path(self.kind())
    }

    /// The URL of the record with id `id`.
    pub open spec fn record_url(&self, id: i64) -> Seq<char> {
        self.collection() + "/"@ + decimal(id as int)
    }

    /// The URL of page `page` of the collection.
    pub open spec fn page_url(&self, page: i64) -> Seq<char> {
        self.collection() + "/?page="@ + decimal(page as int)
    }

    /// The URL of the records whose ids are `ids`, in one request.
    pub open spec fn ids_url(&self, ids: Seq<i64>) -> Seq<char> {
        self.collection() + "/["@ + id_list(ids) + "]"@
    }

    /// A client of the collection `e` at the public service.
    pub fn new(e: EntityTypes) -> (r: API)
        ensures
            r.kind() == e,
            r.base() == default_base(),
    {
        API { entity_type: e, base: String::from_str("https://rickandmortyapi.com") }
    }

    /// A client of the collection `e` at the service found at `base` (a test fixture).
    pub fn with_base(e: EntityTypes, base: String) -> (r: API)
        ensures
            r.kind() == e,
            r.base() == base@,
    {
        API { entity_type: e, base }
    }

    /// The URL of the whole collection, which answers with its first page.
    pub fn collection_url(&self) -> (r: String)
        ensures
            r@ == self.collection(),
    {
        let mut url = self.base.clone();
        let path = match self.entity_type {
            EntityTypes::Character => "/api/character",
            EntityTypes::Episode => "/api/episode",
            EntityTypes::Location => "/api/location",
        };
        url.append(path);
        url
    }

    /// The URL of the record with id `id`.
    pub fn url_for_id(&self, id: i64) -> (r: String)
        ensures
            r@ == self.record_url(id),
    {
        let mut url = self.collection_url();
        url.append("/");
        push_decimal(id, &mut url);
        url
    }

    /// The URL of page `page` of the collection.
    pub fn url_for_page(&self, page: i64) -> (r: String)
        ensures
            r@ == self.page_url(page),
    {
        let mut url = self.collection_url();
        url.append("/?page=");
        push_decimal(page, &mut url);
        url
    }

    /// The URL of the records whose ids are `ids`, asked for in one request.
    pub fn url_for_ids(&self, ids: &Vec<i64>) -> (r: String)
        ensures
            r@ == self.ids_url(ids@),
    {
        let mut url = self.collection_url();
        url.append("/[");
        let ghost head = url@;
        let mut i: usize = 0;
        while i < ids.len()
            invariant
                i <= ids.len(),
                url@ == head + id_list(ids@.take(i as int)),
            decreases ids.len() - i,
        {
            let ghost before = url@;
            if i > 0 {
                proof {
                    reveal_strlit(",");
                }
                url.append(",");
            }
            let ghost with_comma = url@;
            push_decimal(ids[i], &mut url);
            proof {
                let next = ids@.take(i + 1);
                assert(next.drop_last() =~= ids@.take(i as int));
                assert(next.last() == ids@[i as int]);
                if i == 0 {
                    assert(ids@.take(0) =~= Seq::<i64>::empty());
                    assert(url@ =~= head + id_list(next));
                } else {
                    assert(with_comma =~= before + seq![',']);
                    assert(id_list(next) == id_list(ids@.take(i as int)) + seq![','] + decimal(
                        ids@[i as int] as int,
                    ));
                    assert(url@ =~= head + id_list(next));
                }
            }
            i = i + 1;
        }
        assert(ids@.take(ids.len() as int) =~= ids@);
        url.append("]");
        url
    }
}

/// A request by id names that id and no other: one client asks two ids at
/// the same URL only when they are the same id.
pub proof fn lemma_record_url_names_its_id(api: &API, a: i64, b: i64)
    requires
        api.record_url(a) == api.record_url(b),
    ensures
        a == b,
{
    let head = api.collection() + "/"@;
    assert(api.record_url(a).skip(head.len() as int) =~= decimal(a as int));
    assert(api.record_url(b).skip(head.len() as int) =~= decimal(b as int));
    lemma_decimal_injective(a as int, b as int);
}

/// A link to a related record, as a record holds it: a name and a URL. An
/// empty URL means that there is no such record.
#[derive(Clone, Debug, PartialEq, Default)]
pub struct Object {
    /// The related record's name.
    pub name: String,
    /// The URL of the related record.
    pub url: String,
}

/// What a page says of the collection it belongs to.
#[derive(Clone, Debug, PartialEq, Default)]
pub struct Info {
    /// The number of pages of the collection.
    pub pages: i64,
    /// The number of records in the collection.
    pub count: i64,
    /// The URL of the next page, if there is one.
    pub next: Option<String>,
    /// The URL of the previous page, if there is one.
    pub prev: Option<String>,
}

/// One page of a collection: its records, in order, and what it says of the
/// collection.
#[derive(Clone, Debug)]
pub struct PageResponse<T> {
    /// The records on the page.
    pub results: Vec<T>,
    /// The pagination data of the page.
    pub info: Info,
}

impl<T> PageResponse<T> {
    /// The URL of the page that follows this one, or `None` on the last page.
    pub fn next_url(&self) -> (r: Option<String>)
        ensures
            r == self.info.next,
    {
        match &self.info.next {
            Some(u) => Some(u.clone()),
            None => None,
        }
    }
}

} // verus!
