//! Reading a response out of a JSON document.

use vstd::prelude::*;
use crate::encode::well_formed;
use crate::error::DecodeError;
use crate::json::{lemma_member_views, member_views, parsed_json, Json, JsonView};
use crate::object::{
    find_within, lemma_member_is_some, member, read_i32, read_optional_i32, read_optional_text, read_text,
};
use crate::response::{
    decoded, decoded_kind, decoded_rest, extras, is_claimed, Photo, Response, ResponseView, Rich,
    Type, TypeView, Video, AUTHOR_NAME, AUTHOR_URL, CACHE_AGE, HEIGHT, HTML, LINK, PHOTO,
    PROVIDER_NAME, PROVIDER_URL, RICH, TAG, THUMBNAIL_HEIGHT, THUMBNAIL_URL, THUMBNAIL_WIDTH,
    TITLE, URL, VERSION, VIDEO, WIDTH,
};
use crate::text::same_text;

verus! {

/// The extras of a document bear no claimed name, the name `type` least of
/// all, and no name twice; and each is a member of the document.
pub proof fn lemma_extras(members: Seq<(Seq<char>, JsonView)>, kind: TypeView)
    ensures
        forall|i: int|
            0 <= i < extras(members, kind).len() ==> !is_claimed(
                kind,
                (#[trigger] extras(members, kind)[i]).0,
            ),
        forall|i: int|
            0 <= i < extras(members, kind).len() ==> member(
                members,
                (#[trigger] extras(members, kind)[i]).0,
            ) is Some,
        forall|i: int, j: int|
            0 <= i < j < extras(members, kind).len() ==> (#[trigger] extras(members, kind)[i]).0
                != (#[trigger] extras(members, kind)[j]).0,
    decreases members.len(),
{
    if members.len() > 0 {
        let front = members.drop_last();
        lemma_extras(front, kind);
        let kept = extras(front, kind);
        assert forall|i: int| 0 <= i < kept.len() implies member(
            members,
            (#[trigger] kept[i]).0,
        ) is Some by {
            assert(member(front, kept[i].0) is Some);
        }
    }
}

/// A response that was read out of a document is well-formed: `type` and
/// the other names of the fixed part never stand among its extras.
pub proof fn lemma_decoded_is_well_formed(tree: JsonView)
    ensures
        decoded(tree) matches Ok(response) ==> well_formed(response),
{
    if let JsonView::Object(members) = tree {
        if let Ok(kind) = decoded_kind(members) {
            lemma_extras(members, kind);
        }
    }
}

/// A document is of unknown kind exactly where its member `type` is
/// missing, is not a string, or is none of `photo`, `video`, `link` and
/// `rich`.
pub proof fn lemma_unknown_variant(members: Seq<(Seq<char>, JsonView)>)
    ensures
        decoded(JsonView::Object(members)) == Err::<ResponseView, _>(DecodeError::UnknownVariant)
            <==> match member(members, TAG@) {
            Some(JsonView::Text(tag)) => tag != PHOTO@ && tag != VIDEO@ && tag != LINK@ && tag
                != RICH@,
            _ => true,
        },
{
}

/// Reads the kind of content and what belongs to it.
fn read_kind(members: &Vec<(String, Json)>) -> (kind: Result<Type, DecodeError>)
    ensures
        match kind {
            Ok(k) => decoded_kind(member_views(members@)) == Ok::<_, DecodeError>(k@),
            Err(e) => decoded_kind(member_views(members@)) == Err::<TypeView, _>(e),
        },
{
    let tag = match read_text(members, TAG) {
        Some(tag) => tag,
        None => {
            return Err(DecodeError::UnknownVariant);
        },
    };
    if same_text(tag.as_str(), PHOTO) {
        match (read_text(members, URL), read_i32(members, WIDTH), read_i32(members, HEIGHT)) {
            (Some(url), Some(width), Some(height)) => Ok(Type::Photo(Photo { url, width, height })),
            _ => Err(DecodeError::MalformedVariant),
        }
    } else if same_text(tag.as_str(), VIDEO) {
        match (read_text(members, HTML), read_i32(members, WIDTH), read_i32(members, HEIGHT)) {
            (Some(html), Some(width), Some(height)) => Ok(
                Type::Video(Video { html, width, height }),
            ),
            _ => Err(DecodeError::MalformedVariant),
        }
    } else if same_text(tag.as_str(), LINK) {
        Ok(Type::Link)
    } else if same_text(tag.as_str(), RICH) {
        match (
            read_text(members, HTML),
            read_i32(members, WIDTH),
            read_optional_i32(members, HEIGHT),
        ) {
            (Some(html), Some(width), Ok(height)) => Ok(Type::Rich(Rich { html, width, height })),
            _ => Err(DecodeError::MalformedVariant),
        }
    } else {
        Err(DecodeError::UnknownVariant)
    }
}

/// Tells whether `name` is taken by the fixed part of a response of this
/// kind.
fn claimed(kind: &Type, name: &str) -> (taken: bool)
    ensures
        taken == is_claimed(kind@, name@),
{
    let common = same_text(name, TAG) || same_text(name, VERSION) || same_text(name, TITLE)
        || same_text(name, AUTHOR_NAME) || same_text(name, AUTHOR_URL) || same_text(
        name,
        PROVIDER_NAME,
    ) || same_text(name, PROVIDER_URL) || same_text(name, CACHE_AGE) || same_text(
        name,
        THUMBNAIL_URL,
    ) || same_text(name, THUMBNAIL_WIDTH) || same_text(name, THUMBNAIL_HEIGHT);
    if common {
        return true;
    }
    match kind {
        Type::Photo(_) => same_text(name, URL) || same_text(name, WIDTH) || same_text(name, HEIGHT),
        Type::Video(_) => same_text(name, HTML) || same_text(name, WIDTH) || same_text(
            name,
            HEIGHT,
        ),
        Type::Rich(_) => same_text(name, HTML) || same_text(name, WIDTH) || same_text(name, HEIGHT),
        Type::Link => false,
    }
}

/// Copies the members that a response of this kind keeps as extras.
fn collect_extras(members: &Vec<(String, Json)>, kind: &Type) -> (kept: Vec<(String, Json)>)
    ensures
        member_views(kept@) == extras(member_views(members@), kind@),
{
    let ghost views = member_views(members@);
    let mut kept: Vec<(String, Json)> = Vec::new();
    let mut i: usize = 0;
    proof {
        lemma_member_views(members@);
        assert(views.take(0) =~= Seq::empty());
    }
    while i < members.len()
        invariant
            i <= members.len(),
            views == member_views(members@),
            views.len() == members.len(),
            forall|j: int|
                0 <= j < members.len() ==> (#[trigger] views[j]) == (members[j].0@, members[j].1@),
            member_views(kept@) == extras(views.take(i as int), kind@),
        decreases members.len() - i,
    {
        let name = &members[i].0;
        proof {
            let upto = views.take(i + 1);
            assert(upto.drop_last() =~= views.take(i as int));
            assert(upto.last() == views[i as int]);
        }
        if !claimed(kind, name.as_str()) && find_within(members, i, name.as_str()).is_none() {
            let ghost before = kept@;
            let value = members[i].1.copy();
            kept.push((name.clone(), value));
            assert(kept@.drop_last() =~= before);
        }
        i += 1;
    }
    assert(views.take(i as int) =~= views);
    kept
}

/// The view of what decoding gave.
pub open spec fn outcome_view(outcome: Result<Response, DecodeError>) -> Result<
    ResponseView,
    DecodeError,
> {
    match outcome {
        Ok(response) => Ok(response@),
        Err(error) => Err(error),
    }
}

/// What decoding makes of a body: a body that is not one JSON text is a
/// syntax error, and any other body is read as the document it denotes.
pub open spec fn decoded_body(bytes: Seq<u8>) -> Result<ResponseView, DecodeError> {
    match parsed_json(bytes) {
        Some(tree) => decoded(tree),
        None => Err(DecodeError::Syntax),
    }
}

impl Response {
    /// Tells whether the extras of this response bear no name of the fixed
    /// part and no name twice.
    pub fn is_well_formed(&self) -> (sound: bool)
        ensures
            sound == self.wf(),
    {
        let ghost views = member_views(self.extra@);
        let ghost kind = self.oembed_type@;
        proof {
            lemma_member_views(self.extra@);
        }
        let mut i: usize = 0;
        while i < self.extra.len()
            invariant
                i <= self.extra.len(),
                views == member_views(self.extra@),
                views == self@.extra,
                kind == self@.kind,
                views.len() == self.extra.len(),
                forall|k: int|
                    0 <= k < views.len() ==> (#[trigger] views[k]) == (
                        self.extra[k].0@,
                        self.extra[k].1@,
                    ),
                forall|k: int| 0 <= k < i ==> !is_claimed(kind, (#[trigger] views[k]).0),
                forall|a: int, b: int|
                    0 <= a < b < i ==> (#[trigger] views[a]).0 != (#[trigger] views[b]).0,
            decreases self.extra.len() - i,
        {
            let name = self.extra[i].0.as_str();
            let ghost earlier = views.take(i as int);
            proof {
                lemma_member_is_some(earlier, name@);
                assert(views[i as int].0 == name@);
            }
            if claimed(&self.oembed_type, name) {
                return false;
            }
            if find_within(&self.extra, i, name).is_some() {
                proof {
                    let j = choose|j: int|
                        0 <= j < earlier.len() && (#[trigger] earlier[j]).0 == name@;
                    assert(earlier[j] == views[j]);
                    assert(views[j].0 == views[i as int].0);
                }
                return false;
            }
            proof {
                assert forall|a: int| 0 <= a < i implies (#[trigger] views[a]).0 != name@ by {
                    assert(earlier[a] == views[a]);
                }
            }
            i += 1;
        }
        true
    }

    /// Reads a response out of a JSON document.
    ///
    /// The document has to be an object (else `NotAnObject`). Its member
    /// `type` has to be one of the strings `photo`, `video`, `link` and
    /// `rich` (else `UnknownVariant`), and what belongs to that kind has to
    /// be there in its shape (else `MalformedVariant`): `url`, `width` and
    /// `height` for a photo; `html`, `width` and `height` for a video;
    /// `html`, `width` and, if it is there, `height` for rich content.
    /// `version` has to be a string, and each of the other common members,
    /// where it is there and not `null`, a string, or a number for the
    /// thumbnail's width and height (else `MalformedField`). Every other
    /// member is kept under `extra`, once per name.
    pub fn from_json(tree: &Json) -> (outcome: Result<Response, DecodeError>)
        ensures
            outcome_view(outcome) == decoded(tree@),
            outcome matches Ok(response) ==> response.wf(),
    {
        proof {
            lemma_decoded_is_well_formed(tree@);
        }
        let members = match tree {
            Json::Object(members) => members,
            _ => {
                return Err(DecodeError::NotAnObject);
            },
        };
        let oembed_type = match read_kind(members) {
            Ok(kind) => kind,
            Err(error) => {
                return Err(error);
            },
        };
        let ghost views = member_views(members@);
        let ghost kind = oembed_type@;
        match (
            read_text(members, VERSION),
            read_optional_text(members, TITLE),
            read_optional_text(members, AUTHOR_NAME),
            read_optional_text(members, AUTHOR_URL),
            read_optional_text(members, PROVIDER_NAME),
            read_optional_text(members, PROVIDER_URL),
            read_optional_text(members, CACHE_AGE),
            read_optional_text(members, THUMBNAIL_URL),
            read_optional_i32(members, THUMBNAIL_WIDTH),
            read_optional_i32(members, THUMBNAIL_HEIGHT),
        ) {
            (
                Some(version),
                Ok(title),
                Ok(author_name),
                Ok(author_url),
                Ok(provider_name),
                Ok(provider_url),
                Ok(cache_age),
                Ok(thumbnail_url),
                Ok(thumbnail_width),
                Ok(thumbnail_height),
            ) => {
                let extra = collect_extras(members, &oembed_type);
                Ok(
                    Response {
                        oembed_type,
                        version,
                        title,
                        author_name,
                        author_url,
                        provider_name,
                        provider_url,
                        cache_age,
                        thumbnail_url,
                        thumbnail_width,
                        thumbnail_height,
                        extra,
                    },
                )
            },
            _ => {
                assert(decoded_rest(views, kind) is Err);
                Err(DecodeError::MalformedField)
            },
        }
    }

    /// Reads a response out of the body that a provider sent.
    ///
    /// A body that is not one JSON text gives `Syntax`; any other body is
    /// read as `from_json` reads the document.
    pub fn decode(bytes: &[u8]) -> (outcome: Result<Response, DecodeError>)
        ensures
            outcome_view(outcome) == decoded_body(bytes@),
            outcome matches Ok(response) ==> response.wf(),
    {
        match Json::parse(bytes) {
            Ok(tree) => Response::from_json(&tree),
            Err(_) => Err(DecodeError::Syntax),
        }
    }
}

} // verus!
