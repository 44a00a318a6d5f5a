//! Bangumi (bgm.tv): searching a subject, downloading a user's collection
//! page by page, picking the entries rated 10, and filling a new index
//! ("目录") with them.

use vstd::prelude::*;
use vstd::string::*;
use crate::json::{element, json_text, lemma_lookup_first, member, model_of, unsigned, JsonModel, JsonNumber, JsonValue, NumberModel};
use crate::http::is_success;
use crate::paging::{decide_reply, lemma_received_prefix, received, reply_action, ReplyAction};
use crate::text::{decimal, push_decimal};

verus! {

/// Address of the subject search; it answers with the single best match.
pub const SEARCH_URL: &'static str = "https://api.bgm.tv/v0/search/subjects?limit=1";

/// Address at which a new index is created.
pub const INDICES_URL: &'static str = "https://api.bgm.tv/v0/indices";

/// How many collection entries one download request asks for.
pub const PAGE_LIMIT: u64 = 100;

/// One entry of a user's collection: the subject, its kind, and the user's
/// rating from 0 (unrated) to 10.
#[derive(Clone, Copy, Debug)]
pub struct CollectionItem {
    pub subject_id: usize,
    pub subject_type: usize,
    pub rate: usize,
}

/// The entries of `items` that the user rated 10, in their order.
pub open spec fn top_rated(items: Seq<CollectionItem>) -> Seq<CollectionItem> {
    items.filter(|item: CollectionItem| item.rate == 10)
}

/// Exactly the entries rated 10 are kept: each kept entry is one of the
/// given ones and rated 10, and each given entry rated 10 is kept.
pub proof fn lemma_top_rated(items: Seq<CollectionItem>)
    ensures
        forall|i: int| 0 <= i < top_rated(items).len() ==>
            top_rated(items)[i].rate == 10 && items.contains(#[trigger] top_rated(items)[i]),
        forall|i: int| 0 <= i < items.len() && items[i].rate == 10 ==>
            top_rated(items).contains(#[trigger] items[i]),
        top_rated(items).len() <= items.len(),
{
    broadcast use vstd::seq_lib::group_filter_ensures;
    assert forall|i: int| 0 <= i < top_rated(items).len() implies items.contains(#[trigger] top_rated(items)[i]) by {
        items.lemma_filter_contains_rev(|item: CollectionItem| item.rate == 10, top_rated(items)[i]);
    }
}

/// Keeps, in their order, the entries of the saved collection that the user
/// rated 10.
pub fn read_user_rating(collections: &Vec<CollectionItem>) -> (kept: Vec<CollectionItem>)
    ensures
        kept@ == top_rated(collections@),
{
    let mut kept: Vec<CollectionItem> = Vec::new();
    let mut i: usize = 0;
    while i < collections.len()
        invariant
            0 <= i <= collections@.len(),
            kept@ == top_rated(collections@.take(i as int)),
        decreases collections@.len() - i,
    {
        proof {
            reveal_with_fuel(Seq::<_>::filter, 1);
            assert(collections@.take(i + 1).drop_last() =~= collections@.take(i as int));
        }
        let item = collections[i];
        if item.rate == 10 {
            kept.push(item);
        }
        i = i + 1;
    }
    assert(collections@.take(collections@.len() as int) =~= collections@);
    kept
}

/// The request body of a search for `name`: the best ranked game ("type" 4)
/// of that name, safe for work.
pub open spec fn search_request_model(name: Seq<char>) -> JsonModel {
    JsonModel::Object(seq![
        ("keyword"@, JsonModel::Str(name)),
        ("sort"@, JsonModel::Str("rank"@)),
        ("filter"@, JsonModel::Object(seq![
            ("type"@, JsonModel::Array(seq![JsonModel::Number(NumberModel::PosInt(4))])),
            ("nsfw"@, JsonModel::Bool(false)),
        ])),
    ])
}

/// The body of the search request for `name`.
pub fn search_request(name: &str) -> (body: JsonValue)
    ensures
        body.model() == search_request_model(name@),
        member(body.model(), "keyword"@) == Some(JsonModel::Str(name@)),
        member(body.model(), "sort"@) == Some(JsonModel::Str("rank"@)),
{
    let mut kinds: Vec<JsonValue> = Vec::new();
    kinds.push(JsonValue::Number(JsonNumber::PosInt(4)));
    let kinds = JsonValue::Array(kinds);
    assert(kinds.model() == JsonModel::Array(seq![JsonModel::Number(NumberModel::PosInt(4))])) by {
        reveal_with_fuel(JsonValue::model, 2);
        assert(kinds.model()->Array_0 =~= seq![JsonModel::Number(NumberModel::PosInt(4))]);
    }
    let mut filter: Vec<(String, JsonValue)> = Vec::new();
    filter.push((String::from_str("type"), kinds));
    filter.push((String::from_str("nsfw"), JsonValue::Bool(false)));
    let filter = JsonValue::Object(filter);
    assert(filter.model() == search_request_model(name@)->Object_0[2].1) by {
        reveal_with_fuel(JsonValue::model, 2);
        assert(filter.model()->Object_0 =~= search_request_model(name@)->Object_0[2].1->Object_0);
    }
    let mut members: Vec<(String, JsonValue)> = Vec::new();
    members.push((String::from_str("keyword"), JsonValue::Str(String::from_str(name))));
    members.push((String::from_str("sort"), JsonValue::Str(String::from_str("rank"))));
    members.push((String::from_str("filter"), filter));
    let body = JsonValue::Object(members);
    assert(body.model()->Object_0 =~= search_request_model(name@)->Object_0) by {
        reveal_with_fuel(JsonValue::model, 2);
    }
    proof {
        let ms = search_request_model(name@)->Object_0;
        reveal_strlit("keyword");
        reveal_strlit("sort");
        lemma_lookup_first(ms, "keyword"@, 0);
        assert("keyword"@.len() == 7 && "sort"@.len() == 4);
        assert(ms[0].0 != "sort"@);
        lemma_lookup_first(ms, "sort"@, 1);
    }
    body
}

/// The `id` of the first subject in the `data` of a search answer.
pub open spec fn search_hit(answer: JsonModel) -> Option<JsonModel> {
    match member(answer, "data"@) {
        Some(data) => match element(data, 0) {
            Some(hit) => member(hit, "id"@),
            None => None,
        },
        None => None,
    }
}

/// The identifier of the best match in a search answer; `None` where the
/// answer has none (the JSON library reads that as `null`).
pub fn search_result_id(answer: &JsonValue) -> (id: Option<&JsonValue>)
    ensures
        model_of(id) == search_hit(answer.model()),
        member(answer.model(), "data"@) is None ==> id is None,
        forall|data: JsonModel| member(answer.model(), "data"@) == Some(data) ==> {
            &&& element(data, 0) is None ==> id is None
            &&& forall|hit: JsonModel| element(data, 0) == Some(hit)
                ==> model_of(id) == member(hit, "id"@)
        },
{
    match answer.get("data") {
        Some(data) => match data.at(0) {
            Some(hit) => hit.get("id"),
            None => None,
        },
        None => None,
    }
}


/// The text the search gives: the JSON text of the best match's
/// identifier, or `null` where the answer has none (the JSON library's
/// index yields `null` there).
pub open spec fn search_text(answer: JsonModel) -> Seq<char> {
    match search_hit(answer) {
        Some(id) => json_text(id),
        None => json_text(JsonModel::Null),
    }
}

/// The identifier of the best match in a search answer, as JSON text:
/// `null` where there is none, the number for a numeric identifier.
pub fn search_result_text(answer: &JsonValue) -> (text: String)
    ensures
        text@ == search_text(answer.model()),
        search_hit(answer.model()) is None ==> text@ == "null"@,
        forall|id: JsonModel| search_hit(answer.model()) == Some(id) ==> text@ == json_text(id),
{
    proof {
        reveal_strlit("null");
    }
    match search_result_id(answer) {
        Some(id) => id.to_text(),
        None => JsonValue::Null.to_text(),
    }
}

/// Address of the page of `user`'s collection that starts at entry `offset`.
pub open spec fn collections_url(user: Seq<char>, offset: nat) -> Seq<char> {
    "https://api.bgm.tv/v0/users/"@ + user + "/collections?limit="@ + decimal(PAGE_LIMIT as nat)
        + "&offset="@ + decimal(offset)
}

/// A download of a user's collection under way: whose it is, where the
/// next page starts, and the entries received so far.
#[derive(Debug)]
pub struct RatingDownload {
    pub user: String,
    pub offset: u64,
    pub collected: Vec<CollectionItem>,
}

/// What follows a page: another request, or the whole collection.
#[derive(Debug)]
pub enum DownloadStep {
    More(RatingDownload),
    Done(Vec<CollectionItem>),
}

/// The state of a download in mathematical terms.
pub struct DownloadModel {
    pub user: Seq<char>,
    pub offset: nat,
    pub collected: Seq<CollectionItem>,
}

/// What follows a reply, in mathematical terms: another request, the whole
/// collection to save, or the end of a refused download (it reports
/// failure and saves nothing).
pub enum DownloadStepModel {
    More(DownloadModel),
    Done(Seq<CollectionItem>),
    Refused,
}

impl DownloadModel {
    /// Where a download stands after a page of `page` entries out of a
    /// collection of `total`: it asks for the next `PAGE_LIMIT` entries while
    /// fewer than `total` have arrived, and otherwise ends with all of them.
    pub open spec fn after(self, page: Seq<CollectionItem>, total: u64) -> DownloadStepModel {
        let collected = self.collected + page;
        if collected.len() < total {
            DownloadStepModel::More(DownloadModel {
                user: self.user,
                offset: self.offset + PAGE_LIMIT as nat,
                collected,
            })
        } else {
            DownloadStepModel::Done(collected)
        }
    }

    /// Where a download stands after a reply of status `status` carrying a
    /// page of `page` entries out of `total`: a refused reply ends it; a
    /// successful one is taken in as a page.
    pub open spec fn after_reply(self, status: u16, page: Seq<CollectionItem>, total: u64) -> DownloadStepModel {
        if is_success(status) {
            self.after(page, total)
        } else {
            DownloadStepModel::Refused
        }
    }
}

impl RatingDownload {
    /// The download in mathematical terms.
    pub open spec fn model(self) -> DownloadModel {
        DownloadModel { user: self.user@, offset: self.offset as nat, collected: self.collected@ }
    }
}

impl DownloadStep {
    /// The step in mathematical terms.
    pub open spec fn model(self) -> DownloadStepModel {
        match self {
            DownloadStep::More(next) => DownloadStepModel::More(next.model()),
            DownloadStep::Done(all) => DownloadStepModel::Done(all@),
        }
    }
}

impl RatingDownload {
    /// The start of a download of `user`'s collection: from the first entry,
    /// with nothing received.
    pub fn new(user: &str) -> (d: RatingDownload)
        ensures
            d.model() == (DownloadModel { user: user@, offset: 0, collected: Seq::empty() }),
    {
        RatingDownload { user: String::from_str(user), offset: 0, collected: Vec::new() }
    }

    /// Address of the next page to ask for.
    pub fn request_url(&self) -> (url: String)
        ensures
            url@ == collections_url(self.user@, self.offset as nat),
            url@ == "https://api.bgm.tv/v0/users/"@ + self.user@ + "/collections?limit=100&offset="@
                + decimal(self.offset as nat),
    {
        proof {
            reveal_strlit("/collections?limit=");
            reveal_strlit("&offset=");
            reveal_strlit("/collections?limit=100&offset=");
            assert(decimal(100) =~= seq!['1', '0', '0']) by {
                reveal_with_fuel(decimal, 3);
            }
            assert("/collections?limit="@ + decimal(PAGE_LIMIT as nat) + "&offset="@
                =~= "/collections?limit=100&offset="@);
        }
        let mut url = String::from_str("https://api.bgm.tv/v0/users/");
        url.append(self.user.as_str());
        url.append("/collections?limit=");
        push_decimal(&mut url, PAGE_LIMIT);
        url.append("&offset=");
        push_decimal(&mut url, self.offset);
        url
    }

    /// What to do with the reply to the request for the next page: read its
    /// page when it succeeded, and otherwise end the download as a failure
    /// with nothing saved (whatever the reply carries).
    pub fn on_status(&self, status: u16) -> (action: ReplyAction)
        ensures
            action == reply_action(status),
            action == ReplyAction::ReadPage <==> 200 <= status < 300,
            action == ReplyAction::GiveUp ==> forall|page: Seq<CollectionItem>, total: u64|
                #[trigger] self.model().after_reply(status, page, total) == DownloadStepModel::Refused,
    {
        decide_reply(status)
    }

    /// Takes in the page of `page` entries out of `total` carried by a
    /// successful reply of status `status`.
    pub fn on_page(self, status: u16, page: Vec<CollectionItem>, total: u64) -> (step: DownloadStep)
        requires
            is_success(status),
            (self.collected@ + page@).len() < total ==> self.offset <= u64::MAX - PAGE_LIMIT,
        ensures
            step.model() == self.model().after_reply(status, page@, total),
            match step {
                DownloadStep::More(next) => {
                    &&& (self.collected@ + page@).len() < total
                    &&& next.user@ == self.user@
                    &&& next.offset == self.offset + 100
                    &&& next.collected@ == self.collected@ + page@
                },
                DownloadStep::Done(all) => {
                    &&& (self.collected@ + page@).len() >= total
                    &&& all@ == self.collected@ + page@
                },
            },
    {
        let RatingDownload { user, offset, mut collected } = self;
        let mut page = page;
        collected.append(&mut page);
        if (collected.len() as u64) < total {
            DownloadStep::More(RatingDownload { user, offset: offset + PAGE_LIMIT, collected })
        } else {
            DownloadStep::Done(collected)
        }
    }
}

/// Where a download of `user`'s collection stands after the replies
/// `replies` (status, page of entries, announced total), given in order
/// while it asked for more.
pub open spec fn download_run(user: Seq<char>, replies: Seq<(u16, Seq<CollectionItem>, u64)>) -> DownloadStepModel
    decreases replies.len(),
{
    if replies.len() == 0 {
        DownloadStepModel::More(DownloadModel { user, offset: 0, collected: Seq::empty() })
    } else {
        match download_run(user, replies.drop_last()) {
            DownloadStepModel::More(d) => d.after_reply(replies.last().0, replies.last().1, replies.last().2),
            other => other,
        }
    }
}

/// Reply `k` of a download succeeded and left fewer entries than announced:
/// the download went on after it.
pub open spec fn went_on(replies: Seq<(u16, Seq<CollectionItem>, u64)>, k: int) -> bool {
    is_success(replies[k].0) && received(replies, k + 1).len() < replies[k].2
}

/// A download asks for consecutive windows of `PAGE_LIMIT` entries, the
/// `k`-th request starting at entry `PAGE_LIMIT * k`, and asks again only
/// after a successful reply that leaves fewer entries than announced. It
/// keeps every entry it receives in order and ends either at the first
/// successful reply after which at least the announced total has arrived,
/// with exactly the entries received up to then, or at the first refused
/// reply, as a failure with nothing saved.
pub proof fn lemma_download_run(user: Seq<char>, replies: Seq<(u16, Seq<CollectionItem>, u64)>)
    ensures
        match download_run(user, replies) {
            DownloadStepModel::More(d) => {
                &&& d.user == user
                &&& d.offset == PAGE_LIMIT * replies.len()
                &&& d.collected == received(replies, replies.len() as int)
                &&& forall|k: int| 0 <= k < replies.len() ==> #[trigger] went_on(replies, k)
            },
            DownloadStepModel::Done(all) => exists|k: int| {
                &&& 0 <= k < replies.len()
                &&& is_success(replies[k].0)
                &&& all == #[trigger] received(replies, k + 1)
                &&& all.len() >= replies[k].2
                &&& forall|j: int| 0 <= j < k ==> #[trigger] went_on(replies, j)
            },
            DownloadStepModel::Refused => exists|k: int| {
                &&& 0 <= k < replies.len()
                &&& !is_success(#[trigger] replies[k].0)
                &&& forall|j: int| 0 <= j < k ==> #[trigger] went_on(replies, j)
            },
        },
    decreases replies.len(),
{
    if replies.len() > 0 {
        let prefix = replies.drop_last();
        let n = replies.len() - 1;
        lemma_download_run(user, prefix);
        assert forall|k: int| 0 <= k < n implies #[trigger] received(prefix, k + 1) == received(replies, k + 1) by {
            lemma_received_prefix(replies, k + 1);
        }
        assert forall|k: int| 0 <= k < n implies went_on(prefix, k) == #[trigger] went_on(replies, k) by {
            assert(prefix[k] == replies[k]);
        }
        lemma_received_prefix(replies, n);
        assert(replies.last() == replies[n]);
        match download_run(user, prefix) {
            DownloadStepModel::More(d) => {
                assert(received(replies, n + 1) == received(replies, n) + replies[n].1);
                assert(d.collected == received(replies, n));
                assert forall|j: int| 0 <= j < n implies #[trigger] went_on(replies, j) by {
                    assert(went_on(prefix, j));
                }
                if is_success(replies[n].0) {
                    let collected = d.collected + replies[n].1;
                    if collected.len() < replies[n].2 {
                        assert(d.offset + PAGE_LIMIT == PAGE_LIMIT * replies.len()) by (nonlinear_arith)
                            requires d.offset == PAGE_LIMIT * n, n + 1 == replies.len();
                        assert(went_on(replies, n));
                    } else {
                        assert(collected == received(replies, n + 1));
                    }
                }
            },
            DownloadStepModel::Done(all) => {
                let k = choose|k: int| {
                    &&& 0 <= k < prefix.len()
                    &&& is_success(prefix[k].0)
                    &&& all == #[trigger] received(prefix, k + 1)
                    &&& all.len() >= prefix[k].2
                    &&& forall|j: int| 0 <= j < k ==> #[trigger] went_on(prefix, j)
                };
                assert(prefix[k] == replies[k]);
                assert(all == received(replies, k + 1));
                assert forall|j: int| 0 <= j < k implies #[trigger] went_on(replies, j) by {
                    assert(went_on(prefix, j));
                }
            },
            DownloadStepModel::Refused => {
                let k = choose|k: int| {
                    &&& 0 <= k < prefix.len()
                    &&& !is_success(#[trigger] prefix[k].0)
                    &&& forall|j: int| 0 <= j < k ==> #[trigger] went_on(prefix, j)
                };
                assert(prefix[k] == replies[k]);
                assert forall|j: int| 0 <= j < k implies #[trigger] went_on(replies, j) by {
                    assert(went_on(prefix, j));
                }
            },
        }
    }
}

/// The `total` of a page answer, as an unsigned integer: how many entries
/// the whole collection holds.
pub open spec fn announced_total(answer: JsonModel) -> Option<u64> {
    match member(answer, "total"@) {
        Some(total) => unsigned(total),
        None => None,
    }
}

/// The number of entries in the whole collection, as a page answer gives
/// it; `None` where it gives no unsigned integer.
pub fn page_total(answer: &JsonValue) -> (total: Option<u64>)
    ensures
        total == announced_total(answer.model()),
        forall|n: u64| total == Some(n) <==> member(answer.model(), "total"@)
            == Some(JsonModel::Number(NumberModel::PosInt(n))),
{
    match answer.get("total") {
        Some(total) => total.as_u64(),
        None => None,
    }
}

/// The total of an answer is the unsigned integer in its `total` member,
/// unchanged, and there is none when that member is missing or is no
/// unsigned integer.
pub proof fn lemma_announced_total(answer: JsonModel)
    ensures
        forall|n: u64| announced_total(answer) == Some(n) <==>
            member(answer, "total"@) == Some(JsonModel::Number(NumberModel::PosInt(n))),
{
}

/// The identifier of a created index is the unsigned integer in the
/// answer's `id` member, unchanged.
pub proof fn lemma_created_id(answer: JsonModel)
    ensures
        forall|n: u64| created_id(answer) == Some(n) <==>
            member(answer, "id"@) == Some(JsonModel::Number(NumberModel::PosInt(n))),
{
}

/// Title of the index made for `name`: "<name>的十分榜单" ("<name>'s list of tens").
pub open spec fn index_title(name: Seq<char>) -> Seq<char> {
    name + "的十分榜单"@
}

/// The title of the index made for `name`.
pub fn index_title_of(name: &str) -> (title: String)
    ensures
        title@ == index_title(name@),
        title@ == name@ + "的十分榜单"@,
{
    let mut title = String::from_str(name);
    title.append("的十分榜单");
    title
}

/// The body of the request that creates the index for `name`.
pub fn create_index_request(name: &str) -> (body: JsonValue)
    ensures
        body.model() == JsonModel::Object(seq![("title"@, JsonModel::Str(index_title(name@)))]),
        member(body.model(), "title"@) == Some(JsonModel::Str(name@ + "的十分榜单"@)),
{
    let mut members: Vec<(String, JsonValue)> = Vec::new();
    members.push((String::from_str("title"), JsonValue::Str(index_title_of(name))));
    let body = JsonValue::Object(members);
    assert(body.model()->Object_0 =~= seq![("title"@, JsonModel::Str(index_title(name@)))]) by {
        reveal_with_fuel(JsonValue::model, 2);
    }
    proof {
        lemma_lookup_first(body.model()->Object_0, "title"@, 0);
    }
    body
}

/// The `id` of a new index, as an unsigned integer, in the answer to its creation.
pub open spec fn created_id(answer: JsonModel) -> Option<u64> {
    match member(answer, "id"@) {
        Some(id) => unsigned(id),
        None => None,
    }
}

/// The identifier of the index that an answer reports as created; `None`
/// where it reports none that is an unsigned integer.
pub fn created_index_id(answer: &JsonValue) -> (id: Option<u64>)
    ensures
        id == created_id(answer.model()),
        forall|n: u64| id == Some(n) <==> member(answer.model(), "id"@)
            == Some(JsonModel::Number(NumberModel::PosInt(n))),
{
    match answer.get("id") {
        Some(id) => id.as_u64(),
        None => None,
    }
}

/// Address at which subjects are added to index `index_id`.
pub open spec fn index_subjects_url(index_id: u64) -> Seq<char> {
    "https://api.bgm.tv/v0/indices/"@ + decimal(index_id as nat) + "/subjects"@
}

/// The address at which subjects are added to index `index_id`.
pub fn index_subjects_url_of(index_id: u64) -> (url: String)
    ensures
        url@ == index_subjects_url(index_id),
        url@ == "https://api.bgm.tv/v0/indices/"@ + decimal(index_id as nat) + "/subjects"@,
{
    let mut url = String::from_str("https://api.bgm.tv/v0/indices/");
    push_decimal(&mut url, index_id);
    url.append("/subjects");
    url
}

/// The body that adds `item` to an index at place `position`.
pub open spec fn add_subject_model(position: usize, item: CollectionItem) -> JsonModel {
    JsonModel::Object(seq![
        ("subject_id"@, JsonModel::Number(NumberModel::PosInt(item.subject_id as u64))),
        ("sort"@, JsonModel::Number(NumberModel::PosInt(position as u64))),
    ])
}

/// The body that adds an entry names the entry's own subject, unchanged, and
/// the place it is given in the index.
pub proof fn lemma_add_subject_body(position: usize, item: CollectionItem)
    ensures
        member(add_subject_model(position, item), "subject_id"@)
            == Some(JsonModel::Number(NumberModel::PosInt(item.subject_id as u64))),
        member(add_subject_model(position, item), "sort"@)
            == Some(JsonModel::Number(NumberModel::PosInt(position as u64))),
{
    let ms = add_subject_model(position, item)->Object_0;
    reveal_strlit("subject_id");
    reveal_strlit("sort");
    lemma_lookup_first(ms, "subject_id"@, 0);
    assert("subject_id"@.len() == 10 && "sort"@.len() == 4);
    assert(ms[0].0 != "sort"@);
    lemma_lookup_first(ms, "sort"@, 1);
}

/// The body of the request that adds `item` to an index at place `position`.
pub fn add_subject_request(position: usize, item: &CollectionItem) -> (body: JsonValue)
    ensures
        body.model() == add_subject_model(position, *item),
        member(body.model(), "subject_id"@) == Some(JsonModel::Number(NumberModel::PosInt(item.subject_id as u64))),
        member(body.model(), "sort"@) == Some(JsonModel::Number(NumberModel::PosInt(position as u64))),
{
    let mut members: Vec<(String, JsonValue)> = Vec::new();
    members.push((String::from_str("subject_id"), JsonValue::Number(JsonNumber::PosInt(item.subject_id as u64))));
    members.push((String::from_str("sort"), JsonValue::Number(JsonNumber::PosInt(position as u64))));
    let body = JsonValue::Object(members);
    assert(body.model()->Object_0 =~= add_subject_model(position, *item)->Object_0) by {
        reveal_with_fuel(JsonValue::model, 2);
    }
    proof {
        let ms = add_subject_model(position, *item)->Object_0;
        reveal_strlit("subject_id");
        reveal_strlit("sort");
        lemma_lookup_first(ms, "subject_id"@, 0);
        assert("subject_id"@.len() == 10 && "sort"@.len() == 4);
        assert(ms[0].0 != "sort"@);
        lemma_lookup_first(ms, "sort"@, 1);
    }
    body
}

} // verus!
