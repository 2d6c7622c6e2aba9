//! Writing a response as a JSON document, and what holds between writing
//! and reading.

use vstd::prelude::*;
use crate::error::DecodeError;
use crate::json::{json_text, lemma_member_views, member_views, Json, JsonView};
use crate::object::{lemma_member_concat, lemma_member_found, lemma_member_missing, member};
use crate::response::{
    decoded, decoded_kind, decoded_rest, extras, is_claimed, Response, ResponseView, Type,
    TypeView, AUTHOR_NAME, AUTHOR_URL, CACHE_AGE, HEIGHT, HTML, LINK, PHOTO, PROVIDER_NAME,
    PROVIDER_URL, RICH, TAG, THUMBNAIL_HEIGHT, THUMBNAIL_URL, THUMBNAIL_WIDTH, TITLE, URL,
    VERSION, VIDEO, WIDTH,
};
use crate::text::text_view;

verus! {

/// The document for a string that may be missing: `null` stands for none.
pub open spec fn text_or_null(text: Option<Seq<char>>) -> JsonView {
    match text {
        Some(t) => JsonView::Text(t),
        None => JsonView::Null,
    }
}

/// The document for a number that may be missing: `null` stands for none.
pub open spec fn number_or_null(number: Option<i32>) -> JsonView {
    match number {
        Some(n) => JsonView::Integer(n as int),
        None => JsonView::Null,
    }
}

/// The members that tell the kind of content and hold what belongs to it.
pub open spec fn kind_members(kind: TypeView) -> Seq<(Seq<char>, JsonView)> {
    match kind {
        TypeView::Photo { url, width, height } => seq![
            (TAG@, JsonView::Text(PHOTO@)),
            (URL@, JsonView::Text(url)),
            (WIDTH@, JsonView::Integer(width as int)),
            (HEIGHT@, JsonView::Integer(height as int)),
        ],
        TypeView::Video { html, width, height } => seq![
            (TAG@, JsonView::Text(VIDEO@)),
            (HTML@, JsonView::Text(html)),
            (WIDTH@, JsonView::Integer(width as int)),
            (HEIGHT@, JsonView::Integer(height as int)),
        ],
        TypeView::Link => seq![(TAG@, JsonView::Text(LINK@))],
        TypeView::Rich { html, width, height } => seq![
            (TAG@, JsonView::Text(RICH@)),
            (HTML@, JsonView::Text(html)),
            (WIDTH@, JsonView::Integer(width as int)),
            (HEIGHT@, number_or_null(height)),
        ],
    }
}

/// The members common to all kinds. Each is written, `null` where the
/// response has none.
pub open spec fn common_members(response: ResponseView) -> Seq<(Seq<char>, JsonView)> {
    seq![
        (VERSION@, JsonView::Text(response.version)),
        (TITLE@, text_or_null(response.title)),
        (AUTHOR_NAME@, text_or_null(response.author_name)),
        (AUTHOR_URL@, text_or_null(response.author_url)),
        (PROVIDER_NAME@, text_or_null(response.provider_name)),
        (PROVIDER_URL@, text_or_null(response.provider_url)),
        (CACHE_AGE@, text_or_null(response.cache_age)),
        (THUMBNAIL_URL@, text_or_null(response.thumbnail_url)),
        (THUMBNAIL_WIDTH@, number_or_null(response.thumbnail_width)),
        (THUMBNAIL_HEIGHT@, number_or_null(response.thumbnail_height)),
    ]
}

/// The document that stands for a response: an object with the members of
/// the kind, then the common members, then the extras.
pub open spec fn encoded(response: ResponseView) -> JsonView {
    JsonView::Object(kind_members(response.kind) + common_members(response) + response.extra)
}

/// What holds of the extras of every response that was decoded: no name
/// among them is taken by the fixed part, the name `type` least of all, and
/// no name stands twice.
pub open spec fn well_formed(response: ResponseView) -> bool {
    &&& forall|i: int|
        0 <= i < response.extra.len() ==> !is_claimed(
            response.kind,
            (#[trigger] response.extra[i]).0,
        )
    &&& forall|i: int, j: int|
        0 <= i < j < response.extra.len() ==> (#[trigger] response.extra[i]).0
            != (#[trigger] response.extra[j]).0
}

/// The names that the fixed part of a document is written under differ from
/// one another, and each of them is claimed.
pub proof fn lemma_fixed_names(response: ResponseView)
    ensures
        ({
            let fixed = kind_members(response.kind) + common_members(response);
            &&& forall|i: int|
                0 <= i < fixed.len() ==> is_claimed(response.kind, (#[trigger] fixed[i]).0)
            &&& forall|i: int, j: int|
                0 <= i < j < fixed.len() ==> (#[trigger] fixed[i]).0 != (#[trigger] fixed[j]).0
        }),
{
    reveal_strlit("type");
    reveal_strlit("url");
    reveal_strlit("html");
    reveal_strlit("width");
    reveal_strlit("height");
    reveal_strlit("version");
    reveal_strlit("title");
    reveal_strlit("author_name");
    reveal_strlit("author_url");
    reveal_strlit("provider_name");
    reveal_strlit("provider_url");
    reveal_strlit("cache_age");
    reveal_strlit("thumbnail_url");
    reveal_strlit("thumbnail_width");
    reveal_strlit("thumbnail_height");
    assert(TAG@.len() == 4 && TAG@[0] == 't');
    assert(URL@.len() == 3 && URL@[0] == 'u');
    assert(HTML@.len() == 4 && HTML@[0] == 'h');
    assert(WIDTH@.len() == 5 && WIDTH@[0] == 'w');
    assert(HEIGHT@.len() == 6 && HEIGHT@[0] == 'h');
    assert(VERSION@.len() == 7 && VERSION@[0] == 'v');
    assert(TITLE@.len() == 5 && TITLE@[0] == 't');
    assert(AUTHOR_NAME@.len() == 11 && AUTHOR_NAME@[0] == 'a');
    assert(AUTHOR_URL@.len() == 10 && AUTHOR_URL@[0] == 'a');
    assert(PROVIDER_NAME@.len() == 13 && PROVIDER_NAME@[0] == 'p');
    assert(PROVIDER_URL@.len() == 12 && PROVIDER_URL@[0] == 'p');
    assert(CACHE_AGE@.len() == 9 && CACHE_AGE@[0] == 'c');
    assert(THUMBNAIL_URL@.len() == 13 && THUMBNAIL_URL@[0] == 't');
    assert(THUMBNAIL_WIDTH@.len() == 15 && THUMBNAIL_WIDTH@[0] == 't');
    assert(THUMBNAIL_HEIGHT@.len() == 16 && THUMBNAIL_HEIGHT@[0] == 't');
}

/// The four names of the kinds of content differ from one another.
pub proof fn lemma_tags_differ()
    ensures
        PHOTO@ != VIDEO@,
        PHOTO@ != LINK@,
        PHOTO@ != RICH@,
        VIDEO@ != LINK@,
        VIDEO@ != RICH@,
        LINK@ != RICH@,
{
    reveal_strlit("photo");
    reveal_strlit("video");
    reveal_strlit("link");
    reveal_strlit("rich");
    assert(PHOTO@.len() == 5 && PHOTO@[0] == 'p');
    assert(VIDEO@.len() == 5 && VIDEO@[0] == 'v');
    assert(LINK@.len() == 4 && LINK@[0] == 'l');
    assert(RICH@.len() == 4 && RICH@[0] == 'r');
}

/// In the document written for a response, each member of the fixed part is
/// the first of its name.
pub proof fn lemma_fixed_lookup(response: ResponseView, k: int)
    requires
        0 <= k < (kind_members(response.kind) + common_members(response)).len(),
    ensures
        ({
            let fixed = kind_members(response.kind) + common_members(response);
            member(fixed + response.extra, fixed[k].0) == Some(fixed[k].1)
        }),
{
    let fixed = kind_members(response.kind) + common_members(response);
    lemma_fixed_names(response);
    lemma_member_found(fixed, fixed[k].0, k);
    lemma_member_concat(fixed, response.extra, fixed[k].0);
}

/// Of the document written for a well-formed response, the extras are the
/// extras of the response.
pub proof fn lemma_extras_of_encoded(response: ResponseView, upto: int)
    requires
        well_formed(response),
        0 <= upto <= response.extra.len(),
    ensures
        ({
            let fixed = kind_members(response.kind) + common_members(response);
            extras(fixed + response.extra.take(upto), response.kind) == response.extra.take(upto)
        }),
    decreases upto,
{
    let fixed = kind_members(response.kind) + common_members(response);
    let kind = response.kind;
    lemma_fixed_names(response);
    if upto == 0 {
        assert(fixed + response.extra.take(0) =~= fixed);
        lemma_only_claimed(fixed, kind);
        assert(response.extra.take(0) =~= Seq::empty());
    } else {
        let whole = fixed + response.extra.take(upto);
        let front = fixed + response.extra.take(upto - 1);
        let last = response.extra[upto - 1];
        assert(whole.drop_last() =~= front);
        assert(whole.last() == last);
        lemma_extras_of_encoded(response, upto - 1);
        assert forall|j: int| 0 <= j < front.len() implies (#[trigger] front[j]).0 != last.0 by {
            if j < fixed.len() {
                assert(front[j] == fixed[j]);
                assert(is_claimed(kind, fixed[j].0));
            } else {
                assert(front[j] == response.extra[j - fixed.len()]);
            }
        }
        lemma_member_missing(front, last.0);
        assert(response.extra.take(upto) =~= response.extra.take(upto - 1).push(last));
    }
}

/// Members that all bear claimed names leave no extras.
pub proof fn lemma_only_claimed(members: Seq<(Seq<char>, JsonView)>, kind: TypeView)
    requires
        forall|i: int| 0 <= i < members.len() ==> is_claimed(kind, (#[trigger] members[i]).0),
    ensures
        extras(members, kind) == Seq::<(Seq<char>, JsonView)>::empty(),
    decreases members.len(),
{
    if members.len() > 0 {
        let front = members.drop_last();
        assert forall|i: int| 0 <= i < front.len() implies is_claimed(
            kind,
            (#[trigger] front[i]).0,
        ) by {
            assert(front[i] == members[i]);
        }
        lemma_only_claimed(front, kind);
        assert(is_claimed(kind, members[members.len() - 1].0));
    }
}

/// Writing a well-formed response and reading the document again gives the
/// response back: the kind, every common member, and the extras as they
/// stood.
pub proof fn lemma_round_trip(response: ResponseView)
    requires
        well_formed(response),
    ensures
        decoded(encoded(response)) == Ok::<_, DecodeError>(response),
{
    let kind = response.kind;
    let kinds = kind_members(kind);
    let fixed = kinds + common_members(response);
    let members = fixed + response.extra;
    lemma_tags_differ();
    assert forall|k: int| 0 <= k < fixed.len() implies member(members, (#[trigger] fixed[k]).0)
        == Some(fixed[k].1) by {
        lemma_fixed_lookup(response, k);
    }
    assert(fixed[0].0 == TAG@);
    assert(decoded_kind(members) == Ok::<_, DecodeError>(kind)) by {
        match kind {
            TypeView::Photo { .. } => {
                assert(fixed[1].0 == URL@ && fixed[2].0 == WIDTH@ && fixed[3].0 == HEIGHT@);
            },
            TypeView::Video { .. } => {
                assert(fixed[1].0 == HTML@ && fixed[2].0 == WIDTH@ && fixed[3].0 == HEIGHT@);
            },
            TypeView::Link => {},
            TypeView::Rich { .. } => {
                assert(fixed[1].0 == HTML@ && fixed[2].0 == WIDTH@ && fixed[3].0 == HEIGHT@);
            },
        }
    }
    let n = kinds.len() as int;
    assert(fixed[n].0 == VERSION@ && fixed[n + 1].0 == TITLE@ && fixed[n + 2].0 == AUTHOR_NAME@
        && fixed[n + 3].0 == AUTHOR_URL@ && fixed[n + 4].0 == PROVIDER_NAME@ && fixed[n + 5].0
        == PROVIDER_URL@ && fixed[n + 6].0 == CACHE_AGE@ && fixed[n + 7].0 == THUMBNAIL_URL@
        && fixed[n + 8].0 == THUMBNAIL_WIDTH@ && fixed[n + 9].0 == THUMBNAIL_HEIGHT@);
    lemma_extras_of_encoded(response, response.extra.len() as int);
    assert(response.extra.take(response.extra.len() as int) =~= response.extra);
    assert(decoded_rest(members, kind) == Ok::<_, DecodeError>(response));
}

fn text_json(text: &Option<String>) -> (tree: Json)
    ensures
        tree@ == text_or_null(text_view(*text)),
{
    match text {
        Some(t) => Json::Text(t.clone()),
        None => Json::Null,
    }
}

fn number_json(number: Option<i32>) -> (tree: Json)
    ensures
        tree@ == number_or_null(number),
{
    match number {
        Some(n) => Json::Int(n as i64),
        None => Json::Null,
    }
}

impl Response {
    /// No extra of this response bears a name of the fixed part, and none
    /// bears the name of another.
    pub open spec fn wf(&self) -> bool {
        well_formed(self@)
    }

    /// Writes the response as JSON text, the text of the document that
    /// `to_json` gives.
    pub fn encode(&self) -> (bytes: Vec<u8>)
        ensures
            bytes@ == json_text(encoded(self@)),
    {
        self.to_json().print()
    }

    /// Writes the response as a JSON document: the kind and what belongs to
    /// it, the common members (`null` for those that are not set), and the
    /// extras, in this order.
    pub fn to_json(&self) -> (tree: Json)
        ensures
            tree@ == encoded(self@),
    {
        let mut members: Vec<(String, Json)> = Vec::new();
        match &self.oembed_type {
            Type::Photo(photo) => {
                members.push((TAG.to_owned(), Json::Text(PHOTO.to_owned())));
                members.push((URL.to_owned(), Json::Text(photo.url.clone())));
                members.push((WIDTH.to_owned(), Json::Int(photo.width as i64)));
                members.push((HEIGHT.to_owned(), Json::Int(photo.height as i64)));
            },
            Type::Video(video) => {
                members.push((TAG.to_owned(), Json::Text(VIDEO.to_owned())));
                members.push((HTML.to_owned(), Json::Text(video.html.clone())));
                members.push((WIDTH.to_owned(), Json::Int(video.width as i64)));
                members.push((HEIGHT.to_owned(), Json::Int(video.height as i64)));
            },
            Type::Link => {
                members.push((TAG.to_owned(), Json::Text(LINK.to_owned())));
            },
            Type::Rich(rich) => {
                members.push((TAG.to_owned(), Json::Text(RICH.to_owned())));
                members.push((HTML.to_owned(), Json::Text(rich.html.clone())));
                members.push((WIDTH.to_owned(), Json::Int(rich.width as i64)));
                members.push((HEIGHT.to_owned(), number_json(rich.height)));
            },
        }
        proof {
            lemma_member_views(members@);
            assert(member_views(members@) =~= kind_members(self@.kind));
        }
        let ghost kind_part = members@;
        members.push((VERSION.to_owned(), Json::Text(self.version.clone())));
        members.push((TITLE.to_owned(), text_json(&self.title)));
        members.push((AUTHOR_NAME.to_owned(), text_json(&self.author_name)));
        members.push((AUTHOR_URL.to_owned(), text_json(&self.author_url)));
        members.push((PROVIDER_NAME.to_owned(), text_json(&self.provider_name)));
        members.push((PROVIDER_URL.to_owned(), text_json(&self.provider_url)));
        members.push((CACHE_AGE.to_owned(), text_json(&self.cache_age)));
        members.push((THUMBNAIL_URL.to_owned(), text_json(&self.thumbnail_url)));
        members.push((THUMBNAIL_WIDTH.to_owned(), number_json(self.thumbnail_width)));
        members.push((THUMBNAIL_HEIGHT.to_owned(), number_json(self.thumbnail_height)));
        let ghost fixed = kind_members(self@.kind) + common_members(self@);
        proof {
            lemma_member_views(members@);
            lemma_member_views(kind_part);
            assert(member_views(members@) =~= fixed);
            lemma_member_views(self.extra@);
        }
        let ghost extra = member_views(self.extra@);
        let mut i: usize = 0;
        while i < self.extra.len()
            invariant
                i <= self.extra.len(),
                extra == member_views(self.extra@),
                extra.len() == self.extra.len(),
                forall|k: int|
                    0 <= k < extra.len() ==> (#[trigger] extra[k]) == (
                        self.extra[k].0@,
                        self.extra[k].1@,
                    ),
                member_views(members@) == fixed + extra.take(i as int),
            decreases self.extra.len() - i,
        {
            let ghost before = members@;
            let name = self.extra[i].0.clone();
            let value = self.extra[i].1.copy();
            members.push((name, value));
            proof {
                assert(members@.drop_last() =~= before);
                assert(fixed + extra.take(i + 1) =~= (fixed + extra.take(i as int)).push(
                    extra[i as int],
                ));
            }
            i += 1;
        }
        assert(extra.take(i as int) =~= extra);
        Json::Object(members)
    }
}

} // verus!
