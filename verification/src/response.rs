//! The response of a provider: one of four kinds of content, the members
//! common to all kinds, and whatever else the provider sent.

use vstd::prelude::*;
use crate::error::DecodeError;
use crate::json::{Json, JsonView};
use crate::object::{member, optional_i32, optional_text, required_i32, required_text};
use crate::text::text_view;

verus! {

/// A still image.
#[derive(Debug, PartialEq, Eq)]
pub struct Photo {
    pub url: String,
    pub width: i32,
    pub height: i32,
}

/// A playable video.
#[derive(Debug, PartialEq, Eq)]
pub struct Video {
    pub html: String,
    pub width: i32,
    pub height: i32,
}

/// Markup to be shown as it is.
#[derive(Debug, PartialEq, Eq)]
pub struct Rich {
    pub html: String,
    pub width: i32,
    pub height: Option<i32>,
}

/// The kind of content of a response, with what belongs to that kind.
#[derive(Debug, PartialEq, Eq)]
pub enum Type {
    Photo(Photo),
    Video(Video),
    Link,
    Rich(Rich),
}

/// What a provider says of a URL.
#[derive(Debug, PartialEq, Eq)]
pub struct Response {
    pub oembed_type: Type,
    pub version: String,
    pub title: Option<String>,
    pub author_name: Option<String>,
    pub author_url: Option<String>,
    pub provider_name: Option<String>,
    pub provider_url: Option<String>,
    pub cache_age: Option<String>,
    pub thumbnail_url: Option<String>,
    pub thumbnail_width: Option<i32>,
    pub thumbnail_height: Option<i32>,
    /// The members that belong neither to all kinds nor to this kind, each
    /// name once, in the order in which they were sent.
    pub extra: Vec<(String, Json)>,
}

/// The mathematical value of a [`Type`].
#[allow(inconsistent_fields)]
pub enum TypeView {
    Photo { url: Seq<char>, width: i32, height: i32 },
    Video { html: Seq<char>, width: i32, height: i32 },
    Link,
    Rich { html: Seq<char>, width: i32, height: Option<i32> },
}

/// The mathematical value of a [`Response`].
pub struct ResponseView {
    pub kind: TypeView,
    pub version: Seq<char>,
    pub title: Option<Seq<char>>,
    pub author_name: Option<Seq<char>>,
    pub author_url: Option<Seq<char>>,
    pub provider_name: Option<Seq<char>>,
    pub provider_url: Option<Seq<char>>,
    pub cache_age: Option<Seq<char>>,
    pub thumbnail_url: Option<Seq<char>>,
    pub thumbnail_width: Option<i32>,
    pub thumbnail_height: Option<i32>,
    pub extra: Seq<(Seq<char>, JsonView)>,
}

impl View for Type {
    type V = TypeView;

    open spec fn view(&self) -> TypeView {
        match self {
            Type::Photo(photo) => TypeView::Photo {
                url: photo.url@,
                width: photo.width,
                height: photo.height,
            },
            Type::Video(video) => TypeView::Video {
                html: video.html@,
                width: video.width,
                height: video.height,
            },
            Type::Link => TypeView::Link,
            Type::Rich(rich) => TypeView::Rich {
                html: rich.html@,
                width: rich.width,
                height: rich.height,
            },
        }
    }
}

impl View for Response {
    type V = ResponseView;

    open spec fn view(&self) -> ResponseView {
        ResponseView {
            kind: self.oembed_type@,
            version: self.version@,
            title: text_view(self.title),
            author_name: text_view(self.author_name),
            author_url: text_view(self.author_url),
            provider_name: text_view(self.provider_name),
            provider_url: text_view(self.provider_url),
            cache_age: text_view(self.cache_age),
            thumbnail_url: text_view(self.thumbnail_url),
            thumbnail_width: self.thumbnail_width,
            thumbnail_height: self.thumbnail_height,
            extra: crate::json::member_views(self.extra@),
        }
    }
}

/// The name of the member that tells the kind of content.
pub const TAG: &'static str = "type";

pub const PHOTO: &'static str = "photo";

pub const VIDEO: &'static str = "video";

pub const LINK: &'static str = "link";

pub const RICH: &'static str = "rich";

pub const URL: &'static str = "url";

pub const HTML: &'static str = "html";

pub const WIDTH: &'static str = "width";

pub const HEIGHT: &'static str = "height";

pub const VERSION: &'static str = "version";

pub const TITLE: &'static str = "title";

pub const AUTHOR_NAME: &'static str = "author_name";

pub const AUTHOR_URL: &'static str = "author_url";

pub const PROVIDER_NAME: &'static str = "provider_name";

pub const PROVIDER_URL: &'static str = "provider_url";

pub const CACHE_AGE: &'static str = "cache_age";

pub const THUMBNAIL_URL: &'static str = "thumbnail_url";

pub const THUMBNAIL_WIDTH: &'static str = "thumbnail_width";

pub const THUMBNAIL_HEIGHT: &'static str = "thumbnail_height";

/// `name` is the name of a member that every kind of response may have.
pub open spec fn is_common_name(name: Seq<char>) -> bool {
    ||| name == VERSION@
    ||| name == TITLE@
    ||| name == AUTHOR_NAME@
    ||| name == AUTHOR_URL@
    ||| name == PROVIDER_NAME@
    ||| name == PROVIDER_URL@
    ||| name == CACHE_AGE@
    ||| name == THUMBNAIL_URL@
    ||| name == THUMBNAIL_WIDTH@
    ||| name == THUMBNAIL_HEIGHT@
}

/// `name` is the name of a member that belongs to content of this kind.
pub open spec fn is_payload_name(kind: TypeView, name: Seq<char>) -> bool {
    match kind {
        TypeView::Photo { .. } => name == URL@ || name == WIDTH@ || name == HEIGHT@,
        TypeView::Video { .. } => name == HTML@ || name == WIDTH@ || name == HEIGHT@,
        TypeView::Rich { .. } => name == HTML@ || name == WIDTH@ || name == HEIGHT@,
        TypeView::Link => false,
    }
}

/// `name` is taken by the fixed part of a response of this kind, and so is
/// no name for anything extra.
pub open spec fn is_claimed(kind: TypeView, name: Seq<char>) -> bool {
    name == TAG@ || is_common_name(name) || is_payload_name(kind, name)
}

/// The kind of content that the members describe.
pub open spec fn decoded_kind(members: Seq<(Seq<char>, JsonView)>) -> Result<
    TypeView,
    DecodeError,
> {
    match required_text(members, TAG@) {
        None => Err(DecodeError::UnknownVariant),
        Some(tag) => if tag == PHOTO@ {
            match (
                required_text(members, URL@),
                required_i32(members, WIDTH@),
                required_i32(members, HEIGHT@),
            ) {
                (Some(url), Some(width), Some(height)) => Ok(TypeView::Photo { url, width, height }),
                _ => Err(DecodeError::MalformedVariant),
            }
        } else if tag == VIDEO@ {
            match (
                required_text(members, HTML@),
                required_i32(members, WIDTH@),
                required_i32(members, HEIGHT@),
            ) {
                (Some(html), Some(width), Some(height)) => Ok(
                    TypeView::Video { html, width, height },
                ),
                _ => Err(DecodeError::MalformedVariant),
            }
        } else if tag == LINK@ {
            Ok(TypeView::Link)
        } else if tag == RICH@ {
            match (
                required_text(members, HTML@),
                required_i32(members, WIDTH@),
                optional_i32(members, HEIGHT@),
            ) {
                (Some(html), Some(width), Ok(height)) => Ok(TypeView::Rich { html, width, height }),
                _ => Err(DecodeError::MalformedVariant),
            }
        } else {
            Err(DecodeError::UnknownVariant)
        },
    }
}

/// The members that a response of this kind keeps as extras: those whose
/// name is not claimed, each name at its first occurrence only, in order.
pub open spec fn extras(members: Seq<(Seq<char>, JsonView)>, kind: TypeView) -> Seq<
    (Seq<char>, JsonView),
>
    decreases members.len(),
{
    if members.len() == 0 {
        Seq::empty()
    } else {
        let front = members.drop_last();
        let last = members.last();
        if is_claimed(kind, last.0) || member(front, last.0) is Some {
            extras(front, kind)
        } else {
            extras(front, kind).push(last)
        }
    }
}

/// The response that the members of an object describe, the kind being
/// known already.
pub open spec fn decoded_rest(members: Seq<(Seq<char>, JsonView)>, kind: TypeView) -> Result<
    ResponseView,
    DecodeError,
> {
    match (
        required_text(members, VERSION@),
        optional_text(members, TITLE@),
        optional_text(members, AUTHOR_NAME@),
        optional_text(members, AUTHOR_URL@),
        optional_text(members, PROVIDER_NAME@),
        optional_text(members, PROVIDER_URL@),
        optional_text(members, CACHE_AGE@),
        optional_text(members, THUMBNAIL_URL@),
        optional_i32(members, THUMBNAIL_WIDTH@),
        optional_i32(members, THUMBNAIL_HEIGHT@),
    ) {
        (
            Some(version),
            Ok(title),
            Ok(author_name),
            Ok(author_url),
            Ok(provider_name),
            Ok(provider_url),
            Ok(cache_age),
            Ok(thumbnail_url),
            Ok(thumbnail_width),
            Ok(thumbnail_height),
        ) => Ok(
            ResponseView {
                kind,
                version,
                title,
                author_name,
                author_url,
                provider_name,
                provider_url,
                cache_age,
                thumbnail_url,
                thumbnail_width,
                thumbnail_height,
                extra: extras(members, kind),
            },
        ),
        _ => Err(DecodeError::MalformedField),
    }
}

/// The response that a JSON document describes.
///
/// The document has to be an object. Its member `type` decides the kind, and
/// the members of that kind are read first; then the members common to all
/// kinds; what is left is kept as extras.
pub open spec fn decoded(tree: JsonView) -> Result<ResponseView, DecodeError> {
    match tree {
        JsonView::Object(members) => match decoded_kind(members) {
            Ok(kind) => decoded_rest(members, kind),
            Err(error) => Err(error),
        },
        _ => Err(DecodeError::NotAnObject),
    }
}

} // verus!
