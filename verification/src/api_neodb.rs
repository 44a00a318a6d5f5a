//! NeoDB (neodb.social): downloading the user's completed shelf page by
//! page, picking the marks graded 10, and filling a new collection with them.

use vstd::prelude::*;
use vstd::string::*;
use crate::json::{json_text, lemma_lookup_first, member, unsigned, JsonModel, JsonNumber, JsonValue, NumberModel};
use crate::http::is_success;
use crate::paging::{decide_reply, lemma_received_prefix, received, reply_action, ReplyAction};
use crate::text::{decimal, push_decimal};

verus! {

/// Address at which a new collection is created.
pub const COLLECTIONS_URL: &'static str = "https://neodb.social/api/me/collection/";

/// The catalogue item that a mark is about.
#[derive(Clone, Debug)]
pub struct Item {
    pub uuid: String,
}

/// A mark on the user's shelf: the item, the user's comment if any, and the
/// grade from 1 to 10 if one was given.
#[derive(Clone, Debug)]
pub struct MarkRecord {
    pub item: Item,
    pub comment_text: Option<String>,
    pub rating_grade: Option<usize>,
}

impl Item {
    /// A copy of the item.
    pub fn duplicate(&self) -> (copy: Item)
        ensures
            copy == *self,
    {
        Item { uuid: self.uuid.clone() }
    }
}

impl MarkRecord {
    /// A copy of the mark.
    pub fn duplicate(&self) -> (copy: MarkRecord)
        ensures
            copy == *self,
    {
        let comment_text = match &self.comment_text {
            Some(text) => Some(text.clone()),
            None => None,
        };
        MarkRecord { item: self.item.duplicate(), comment_text, rating_grade: self.rating_grade }
    }
}

/// The marks of `records` graded 10, in their order.
pub open spec fn top_rated(records: Seq<MarkRecord>) -> Seq<MarkRecord> {
    records.filter(|record: MarkRecord| record.rating_grade == Some(10usize))
}

/// Exactly the marks graded 10 are kept: each kept mark is one of the
/// given ones and graded 10, and each given mark graded 10 is kept.
pub proof fn lemma_top_rated(records: Seq<MarkRecord>)
    ensures
        forall|i: int| 0 <= i < top_rated(records).len() ==>
            top_rated(records)[i].rating_grade == Some(10usize) && records.contains(#[trigger] top_rated(records)[i]),
        forall|i: int| 0 <= i < records.len() && records[i].rating_grade == Some(10usize) ==>
            top_rated(records).contains(#[trigger] records[i]),
        top_rated(records).len() <= records.len(),
{
    broadcast use vstd::seq_lib::group_filter_ensures;
    assert forall|i: int| 0 <= i < top_rated(records).len() implies records.contains(#[trigger] top_rated(records)[i]) by {
        records.lemma_filter_contains_rev(|record: MarkRecord| record.rating_grade == Some(10usize), top_rated(records)[i]);
    }
}

/// Keeps, in their order, the marks of the saved shelf graded 10.
pub fn read_user_rating(records: &Vec<MarkRecord>) -> (kept: Vec<MarkRecord>)
    ensures
        kept@ == top_rated(records@),
{
    let mut kept: Vec<MarkRecord> = Vec::new();
    let mut i: usize = 0;
    while i < records.len()
        invariant
            0 <= i <= records@.len(),
            kept@ == top_rated(records@.take(i as int)),
        decreases records@.len() - i,
    {
        proof {
            reveal_with_fuel(Seq::<_>::filter, 1);
            assert(records@.take(i + 1).drop_last() =~= records@.take(i as int));
        }
        let top = match records[i].rating_grade {
            Some(grade) => grade == 10,
            None => false,
        };
        if top {
            kept.push(records[i].duplicate());
        }
        i = i + 1;
    }
    assert(records@.take(records@.len() as int) =~= records@);
    kept
}

/// Address of page `page` of the user's completed shelf.
pub open spec fn shelf_url(page: nat) -> Seq<char> {
    "https://neodb.social/api/me/shelf/complete?page="@ + decimal(page)
}

/// A download of the user's completed shelf under way: the page to ask for
/// next and the marks received so far.
#[derive(Debug)]
pub struct ShelfDownload {
    pub page: u64,
    pub collected: Vec<MarkRecord>,
}

/// What follows a page: another request, or the whole shelf.
#[derive(Debug)]
pub enum ShelfStep {
    More(ShelfDownload),
    Done(Vec<MarkRecord>),
}

/// The state of a shelf download in mathematical terms.
pub struct ShelfModel {
    pub page: nat,
    pub collected: Seq<MarkRecord>,
}

/// What follows a reply, in mathematical terms: another request, the whole
/// shelf to save, or the end of a refused download (it reports failure and
/// saves nothing).
pub enum ShelfStepModel {
    More(ShelfModel),
    Done(Seq<MarkRecord>),
    Refused,
}

impl ShelfModel {
    /// Where a download stands after a page of `marks` from a shelf of
    /// `pages` pages: it asks for the next page while this one is not the
    /// last, and otherwise ends with all marks received.
    pub open spec fn after(self, marks: Seq<MarkRecord>, pages: u64) -> ShelfStepModel {
        let collected = self.collected + marks;
        if self.page < pages {
            ShelfStepModel::More(ShelfModel { page: self.page + 1, collected })
        } else {
            ShelfStepModel::Done(collected)
        }
    }

    /// Where a download stands after a reply of status `status` carrying
    /// `marks` from a shelf of `pages` pages: a refused reply ends it; a
    /// successful one is taken in as a page.
    pub open spec fn after_reply(self, status: u16, marks: Seq<MarkRecord>, pages: u64) -> ShelfStepModel {
        if is_success(status) {
            self.after(marks, pages)
        } else {
            ShelfStepModel::Refused
        }
    }
}

impl ShelfDownload {
    /// The download in mathematical terms.
    pub open spec fn model(self) -> ShelfModel {
        ShelfModel { page: self.page as nat, collected: self.collected@ }
    }
}

impl ShelfStep {
    /// The step in mathematical terms.
    pub open spec fn model(self) -> ShelfStepModel {
        match self {
            ShelfStep::More(next) => ShelfStepModel::More(next.model()),
            ShelfStep::Done(all) => ShelfStepModel::Done(all@),
        }
    }
}

impl ShelfDownload {
    /// The start of a download: page 1, nothing received.
    pub fn new() -> (d: ShelfDownload)
        ensures
            d.model() == (ShelfModel { page: 1, collected: Seq::empty() }),
    {
        ShelfDownload { page: 1, collected: Vec::new() }
    }

    /// Address of the next page to ask for.
    pub fn request_url(&self) -> (url: String)
        ensures
            url@ == shelf_url(self.page as nat),
            url@ == "https://neodb.social/api/me/shelf/complete?page="@ + decimal(self.page as nat),
    {
        let mut url = String::from_str("https://neodb.social/api/me/shelf/complete?page=");
        push_decimal(&mut url, self.page);
        url
    }

    /// What to do with the reply to the request for the next page: read its
    /// page when it succeeded, and otherwise end the download as a failure
    /// with nothing saved (whatever the reply carries).
    pub fn on_status(&self, status: u16) -> (action: ReplyAction)
        ensures
            action == reply_action(status),
            action == ReplyAction::ReadPage <==> 200 <= status < 300,
            action == ReplyAction::GiveUp ==> forall|marks: Seq<MarkRecord>, pages: u64|
                #[trigger] self.model().after_reply(status, marks, pages) == ShelfStepModel::Refused,
    {
        decide_reply(status)
    }

    /// Takes in the marks, from a shelf of `pages` pages, carried by a
    /// successful reply of status `status`.
    pub fn on_page(self, status: u16, marks: Vec<MarkRecord>, pages: u64) -> (step: ShelfStep)
        requires
            is_success(status),
        ensures
            step.model() == self.model().after_reply(status, marks@, pages),
            match step {
                ShelfStep::More(next) => {
                    &&& self.page < pages
                    &&& next.page == self.page + 1
                    &&& next.collected@ == self.collected@ + marks@
                },
                ShelfStep::Done(all) => {
                    &&& self.page >= pages
                    &&& all@ == self.collected@ + marks@
                },
            },
    {
        let ShelfDownload { page, mut collected } = self;
        let mut marks = marks;
        collected.append(&mut marks);
        if page < pages {
            ShelfStep::More(ShelfDownload { page: page + 1, collected })
        } else {
            ShelfStep::Done(collected)
        }
    }
}

/// Where a shelf download stands after the replies `replies` (status, page
/// of marks, number of pages on the shelf), given in order while it asked
/// for more.
pub open spec fn shelf_run(replies: Seq<(u16, Seq<MarkRecord>, u64)>) -> ShelfStepModel
    decreases replies.len(),
{
    if replies.len() == 0 {
        ShelfStepModel::More(ShelfModel { page: 1, collected: Seq::empty() })
    } else {
        match shelf_run(replies.drop_last()) {
            ShelfStepModel::More(d) => d.after_reply(replies.last().0, replies.last().1, replies.last().2),
            other => other,
        }
    }
}

/// The reply to page `k + 1` succeeded and did not come from the last page:
/// the download went on after it.
pub open spec fn went_on(replies: Seq<(u16, Seq<MarkRecord>, u64)>, k: int) -> bool {
    is_success(replies[k].0) && k + 1 < replies[k].2
}

/// A shelf download asks for pages 1, 2, 3, ... in turn, and asks again
/// only after a successful reply from a page before the last. It keeps
/// every mark it receives in order and ends either at the first successful
/// reply whose page number reaches the page count sent with it, with
/// exactly the marks received up to then, or at the first refused reply,
/// as a failure with nothing saved.
pub proof fn lemma_shelf_run(replies: Seq<(u16, Seq<MarkRecord>, u64)>)
    ensures
        match shelf_run(replies) {
            ShelfStepModel::More(d) => {
                &&& d.page == replies.len() + 1
                &&& d.collected == received(replies, replies.len() as int)
                &&& forall|k: int| 0 <= k < replies.len() ==> #[trigger] went_on(replies, k)
            },
            ShelfStepModel::Done(all) => exists|k: int| {
                &&& 0 <= k < replies.len()
                &&& is_success(replies[k].0)
                &&& all == #[trigger] received(replies, k + 1)
                &&& k + 1 >= replies[k].2
                &&& forall|j: int| 0 <= j < k ==> #[trigger] went_on(replies, j)
            },
            ShelfStepModel::Refused => exists|k: int| {
                &&& 0 <= k < replies.len()
                &&& !is_success(#[trigger] replies[k].0)
                &&& forall|j: int| 0 <= j < k ==> #[trigger] went_on(replies, j)
            },
        },
    decreases replies.len(),
{
    if replies.len() > 0 {
        let prefix = replies.drop_last();
        let n = replies.len() - 1;
        lemma_shelf_run(prefix);
        lemma_received_prefix(replies, n);
        assert(replies.last() == replies[n]);
        assert forall|k: int| 0 <= k < n implies went_on(prefix, k) == #[trigger] went_on(replies, k) by {
            assert(prefix[k] == replies[k]);
        }
        match shelf_run(prefix) {
            ShelfStepModel::More(d) => {
                assert(received(replies, n + 1) == received(replies, n) + replies[n].1);
                assert forall|j: int| 0 <= j < n implies #[trigger] went_on(replies, j) by {
                    assert(went_on(prefix, j));
                }
            },
            ShelfStepModel::Done(all) => {
                let k = choose|k: int| {
                    &&& 0 <= k < prefix.len()
                    &&& is_success(prefix[k].0)
                    &&& all == #[trigger] received(prefix, k + 1)
                    &&& k + 1 >= prefix[k].2
                    &&& forall|j: int| 0 <= j < k ==> #[trigger] went_on(prefix, j)
                };
                lemma_received_prefix(replies, k + 1);
                assert(prefix[k] == replies[k]);
                assert forall|j: int| 0 <= j < k implies #[trigger] went_on(replies, j) by {
                    assert(went_on(prefix, j));
                }
            },
            ShelfStepModel::Refused => {
                let k = choose|k: int| {
                    &&& 0 <= k < prefix.len()
                    &&& !is_success(#[trigger] prefix[k].0)
                    &&& forall|j: int| 0 <= j < k ==> #[trigger] went_on(prefix, j)
                };
                assert(prefix[k] == replies[k]);
                assert forall|j: int| 0 <= j < k implies #[trigger] went_on(replies, j) by {
                    assert(went_on(prefix, j));
                }
            },
        }
    }
}

/// The `pages` of a page answer, as an unsigned integer: how many pages
/// the whole shelf fills.
pub open spec fn announced_pages(answer: JsonModel) -> Option<u64> {
    match member(answer, "pages"@) {
        Some(pages) => unsigned(pages),
        None => None,
    }
}

/// The number of pages of the whole shelf, as a page answer gives it;
/// `None` where it gives no unsigned integer.
pub fn page_count(answer: &JsonValue) -> (pages: Option<u64>)
    ensures
        pages == announced_pages(answer.model()),
        forall|n: u64| pages == Some(n) <==> member(answer.model(), "pages"@)
            == Some(JsonModel::Number(NumberModel::PosInt(n))),
{
    match answer.get("pages") {
        Some(pages) => pages.as_u64(),
        None => None,
    }
}

/// The page count of an answer is the unsigned integer in its `pages`
/// member, unchanged, and there is none when that member is missing or is
/// no unsigned integer.
pub proof fn lemma_announced_pages(answer: JsonModel)
    ensures
        forall|n: u64| announced_pages(answer) == Some(n) <==>
            member(answer, "pages"@) == Some(JsonModel::Number(NumberModel::PosInt(n))),
{
}

/// The body that adds a mark's item names that item by its own uuid and
/// carries the mark's comment as the note, or an empty note.
pub proof fn lemma_add_item_body(record: MarkRecord)
    ensures
        member(add_item_model(record), "item_uuid"@) == Some(JsonModel::Str(record.item.uuid@)),
        record.comment_text is None ==> member(add_item_model(record), "note"@) == Some(JsonModel::Str(Seq::empty())),
        forall|comment: String| record.comment_text == Some(comment)
            ==> member(add_item_model(record), "note"@) == Some(JsonModel::Str(comment@)),
{
    let ms = add_item_model(record)->Object_0;
    reveal_strlit("item_uuid");
    reveal_strlit("note");
    assert("item_uuid"@.len() == 9 && "note"@.len() == 4);
    lemma_lookup_first(ms, "item_uuid"@, 0);
    assert(ms[0].0 != "note"@);
    lemma_lookup_first(ms, "note"@, 1);
}

/// Title of the collection made for `name`: "<name>的十分榜单".
pub open spec fn collection_title(name: Seq<char>) -> Seq<char> {
    name + "的十分榜单"@
}

/// The body that creates the collection for `name`: public ("visibility" 0),
/// with an empty brief.
pub open spec fn create_collection_model(name: Seq<char>) -> JsonModel {
    JsonModel::Object(seq![
        ("title"@, JsonModel::Str(collection_title(name))),
        ("brief"@, JsonModel::Str(Seq::empty())),
        ("visibility"@, JsonModel::Number(NumberModel::PosInt(0))),
    ])
}

/// The body of the request that creates the collection for `name`.
pub fn create_index_request(name: &str) -> (body: JsonValue)
    ensures
        body.model() == create_collection_model(name@),
        member(body.model(), "title"@) == Some(JsonModel::Str(name@ + "的十分榜单"@)),
        member(body.model(), "brief"@) == Some(JsonModel::Str(Seq::empty())),
        member(body.model(), "visibility"@) == Some(JsonModel::Number(NumberModel::PosInt(0))),
{
    let mut title = String::from_str(name);
    title.append("的十分榜单");
    let mut members: Vec<(String, JsonValue)> = Vec::new();
    members.push((String::from_str("title"), JsonValue::Str(title)));
    members.push((String::from_str("brief"), JsonValue::Str(String::new())));
    members.push((String::from_str("visibility"), JsonValue::Number(JsonNumber::PosInt(0))));
    let body = JsonValue::Object(members);
    assert(body.model()->Object_0 =~= create_collection_model(name@)->Object_0) by {
        reveal_with_fuel(JsonValue::model, 2);
    }
    proof {
        let ms = create_collection_model(name@)->Object_0;
        reveal_strlit("title");
        reveal_strlit("brief");
        reveal_strlit("visibility");
        assert("title"@.len() == 5 && "brief"@.len() == 5 && "visibility"@.len() == 10);
        assert("title"@[0] == 't' && "brief"@[0] == 'b');
        lemma_lookup_first(ms, "title"@, 0);
        assert(ms[0].0 != "brief"@);
        lemma_lookup_first(ms, "brief"@, 1);
        assert(ms[0].0 != "visibility"@ && ms[1].0 != "visibility"@);
        lemma_lookup_first(ms, "visibility"@, 2);
    }
    body
}

/// The identifier of a new collection in the answer to its creation, as
/// the text that goes into the collection's address: the `uuid` itself when
/// it is a string, and otherwise its JSON text (`null` where there is none,
/// as the JSON library's index yields).
pub open spec fn created_id_text(answer: JsonModel) -> Seq<char> {
    match member(answer, "uuid"@) {
        Some(JsonModel::Str(uuid)) => uuid,
        Some(other) => json_text(other),
        None => json_text(JsonModel::Null),
    }
}

/// The identifier that an answer gives the new collection.
pub fn created_collection_id(answer: &JsonValue) -> (id: String)
    ensures
        id@ == created_id_text(answer.model()),
        forall|uuid: Seq<char>| member(answer.model(), "uuid"@) == Some(JsonModel::Str(uuid)) ==> id@ == uuid,
        member(answer.model(), "uuid"@) is None ==> id@ == "null"@,
{
    proof {
        reveal_strlit("null");
    }
    match answer.get("uuid") {
        Some(JsonValue::Str(uuid)) => uuid.clone(),
        Some(other) => other.to_text(),
        None => JsonValue::Null.to_text(),
    }
}

/// Address at which items are added to the collection `index_id`.
pub open spec fn collection_items_url(index_id: Seq<char>) -> Seq<char> {
    "https://neodb.social/api/me/collection/"@ + index_id + "/item/"@
}

/// The address at which items are added to the collection `index_id`.
pub fn collection_items_url_of(index_id: &str) -> (url: String)
    ensures
        url@ == collection_items_url(index_id@),
        url@ == "https://neodb.social/api/me/collection/"@ + index_id@ + "/item/"@,
{
    let mut url = String::from_str("https://neodb.social/api/me/collection/");
    url.append(index_id);
    url.append("/item/");
    url
}

/// The note that goes with a mark into the collection: its comment, or
/// nothing (the site wants the field present).
pub open spec fn note_of(record: MarkRecord) -> Seq<char> {
    match record.comment_text {
        Some(text) => text@,
        None => Seq::empty(),
    }
}

/// The body that adds the item of `record` to a collection, with its note.
pub open spec fn add_item_model(record: MarkRecord) -> JsonModel {
    JsonModel::Object(seq![
        ("item_uuid"@, JsonModel::Str(record.item.uuid@)),
        ("note"@, JsonModel::Str(note_of(record))),
    ])
}

/// The body of the request that adds the item of `record` to a collection.
pub fn add_subject_request(record: &MarkRecord) -> (body: JsonValue)
    ensures
        body.model() == add_item_model(*record),
        member(body.model(), "item_uuid"@) == Some(JsonModel::Str(record.item.uuid@)),
        forall|comment: String| record.comment_text == Some(comment)
            ==> member(body.model(), "note"@) == Some(JsonModel::Str(comment@)),
        record.comment_text is None ==> member(body.model(), "note"@) == Some(JsonModel::Str(Seq::empty())),
{
    let note = match &record.comment_text {
        Some(text) => text.clone(),
        None => String::new(),
    };
    let mut members: Vec<(String, JsonValue)> = Vec::new();
    members.push((String::from_str("item_uuid"), JsonValue::Str(record.item.uuid.clone())));
    members.push((String::from_str("note"), JsonValue::Str(note)));
    let body = JsonValue::Object(members);
    assert(body.model()->Object_0 =~= add_item_model(*record)->Object_0) by {
        reveal_with_fuel(JsonValue::model, 2);
    }
    proof {
        let ms = add_item_model(*record)->Object_0;
        reveal_strlit("item_uuid");
        reveal_strlit("note");
        assert("item_uuid"@.len() == 9 && "note"@.len() == 4);
        lemma_lookup_first(ms, "item_uuid"@, 0);
        assert(ms[0].0 != "note"@);
        lemma_lookup_first(ms, "note"@, 1);
    }
    body
}

} // verus!
