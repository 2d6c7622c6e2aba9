//! Looking things up among the members of a JSON object.
//!
//! An object is read as the sequence of its members. Where a name stands
//! more than once, the first member of that name counts.

use vstd::prelude::*;
use crate::json::{lemma_member_views, member_views, Json, JsonView};
use crate::text::{same_text, text_view};

verus! {

/// The value of the first member called `name`.
pub open spec fn member(members: Seq<(Seq<char>, JsonView)>, name: Seq<char>) -> Option<JsonView>
    decreases members.len(),
{
    if members.len() == 0 {
        None
    } else {
        match member(members.drop_last(), name) {
            Some(value) => Some(value),
            None => if members.last().0 == name {
                Some(members.last().1)
            } else {
                None
            },
        }
    }
}

/// The number that `value` is, where it is a whole number in the range of
/// `i32`.
pub open spec fn as_i32(value: JsonView) -> Option<i32> {
    match value {
        JsonView::Integer(n) => if i32::MIN <= n <= i32::MAX {
            Some(n as i32)
        } else {
            None
        },
        _ => None,
    }
}

/// The string that has to stand under `name`.
pub open spec fn required_text(members: Seq<(Seq<char>, JsonView)>, name: Seq<char>) -> Option<
    Seq<char>,
> {
    match member(members, name) {
        Some(JsonView::Text(text)) => Some(text),
        _ => None,
    }
}

/// The number that has to stand under `name`.
pub open spec fn required_i32(members: Seq<(Seq<char>, JsonView)>, name: Seq<char>) -> Option<
    i32,
> {
    match member(members, name) {
        Some(value) => as_i32(value),
        None => None,
    }
}

/// The string that may stand under `name`. A missing member and `null` both
/// mean that there is none; anything but a string is an error.
pub open spec fn optional_text(members: Seq<(Seq<char>, JsonView)>, name: Seq<char>) -> Result<
    Option<Seq<char>>,
    (),
> {
    match member(members, name) {
        None => Ok(None),
        Some(JsonView::Null) => Ok(None),
        Some(JsonView::Text(text)) => Ok(Some(text)),
        Some(_) => Err(()),
    }
}

/// The number that may stand under `name`, read as `optional_text` reads a
/// string.
pub open spec fn optional_i32(members: Seq<(Seq<char>, JsonView)>, name: Seq<char>) -> Result<
    Option<i32>,
    (),
> {
    match member(members, name) {
        None => Ok(None),
        Some(JsonView::Null) => Ok(None),
        Some(value) => match as_i32(value) {
            Some(n) => Ok(Some(n)),
            None => Err(()),
        },
    }
}

/// Where no member is called `name`, there is no value under `name`.
pub proof fn lemma_member_missing(members: Seq<(Seq<char>, JsonView)>, name: Seq<char>)
    requires
        forall|j: int| 0 <= j < members.len() ==> (#[trigger] members[j]).0 != name,
    ensures
        member(members, name) is None,
    decreases members.len(),
{
    if members.len() > 0 {
        let front = members.drop_last();
        assert forall|j: int| 0 <= j < front.len() implies (#[trigger] front[j]).0 != name by {
            assert(front[j] == members[j]);
        }
        lemma_member_missing(front, name);
    }
}

/// The value under `name` is that of the first member called `name`.
pub proof fn lemma_member_found(members: Seq<(Seq<char>, JsonView)>, name: Seq<char>, i: int)
    requires
        0 <= i < members.len(),
        members[i].0 == name,
        forall|j: int| 0 <= j < i ==> (#[trigger] members[j]).0 != name,
    ensures
        member(members, name) == Some(members[i].1),
    decreases members.len(),
{
    let front = members.drop_last();
    assert forall|j: int| 0 <= j < i && j < front.len() implies (#[trigger] front[j]).0
        != name by {
        assert(front[j] == members[j]);
    }
    if i == members.len() - 1 {
        lemma_member_missing(front, name);
    } else {
        assert(front[i] == members[i]);
        lemma_member_found(front, name, i);
    }
}

/// Something stands under `name` exactly where a member is called `name`.
pub proof fn lemma_member_is_some(members: Seq<(Seq<char>, JsonView)>, name: Seq<char>)
    ensures
        member(members, name) is Some <==> exists|j: int|
            0 <= j < members.len() && (#[trigger] members[j]).0 == name,
    decreases members.len(),
{
    if members.len() > 0 {
        let front = members.drop_last();
        lemma_member_is_some(front, name);
        if member(front, name) is Some {
            let j = choose|j: int| 0 <= j < front.len() && (#[trigger] front[j]).0 == name;
            assert(members[j] == front[j]);
        } else if members.last().0 == name {
            assert(members[members.len() - 1].0 == name);
        } else {
            assert forall|j: int| 0 <= j < members.len() implies (#[trigger] members[j]).0
                != name by {
                if j < front.len() {
                    assert(front[j] == members[j]);
                }
            }
        }
    }
}

/// Looking a name up in two runs of members, one after the other, finds
/// what the first run has under it, and only else what the second has.
pub proof fn lemma_member_concat(
    first: Seq<(Seq<char>, JsonView)>,
    second: Seq<(Seq<char>, JsonView)>,
    name: Seq<char>,
)
    ensures
        member(first + second, name) == match member(first, name) {
            Some(value) => Some(value),
            None => member(second, name),
        },
    decreases second.len(),
{
    if second.len() == 0 {
        assert(first + second =~= first);
    } else {
        assert((first + second).drop_last() =~= first + second.drop_last());
        lemma_member_concat(first, second.drop_last(), name);
    }
}

/// The views of the first `limit` members.
pub open spec fn views_before(members: Seq<(String, Json)>, limit: int) -> Seq<
    (Seq<char>, JsonView),
> {
    member_views(members).take(limit)
}

/// Looks among the first `limit` members for the first one called `name`.
pub(crate) fn find_within<'a>(members: &'a Vec<(String, Json)>, limit: usize, name: &str) -> (found: Option<
    &'a Json,
>)
    requires
        limit <= members.len(),
    ensures
        match found {
            Some(value) => member(views_before(members@, limit as int), name@) == Some(value@),
            None => member(views_before(members@, limit as int), name@) is None,
        },
{
    let ghost views = views_before(members@, limit as int);
    proof {
        lemma_member_views(members@);
    }
    let mut i: usize = 0;
    while i < limit
        invariant
            i <= limit <= members.len(),
            views == views_before(members@, limit as int),
            views.len() == limit,
            forall|j: int|
                0 <= j < limit ==> (#[trigger] views[j]) == (members[j].0@, members[j].1@),
            forall|j: int| 0 <= j < i ==> (#[trigger] views[j]).0 != name@,
        decreases limit - i,
    {
        if same_text(members[i].0.as_str(), name) {
            proof {
                lemma_member_found(views, name@, i as int);
            }
            return Some(&members[i].1);
        }
        i += 1;
    }
    proof {
        lemma_member_missing(views, name@);
    }
    None
}

/// The value of the first member called `name`.
pub(crate) fn find_member<'a>(members: &'a Vec<(String, Json)>, name: &str) -> (found: Option<&'a Json>)
    ensures
        match found {
            Some(value) => member(member_views(members@), name@) == Some(value@),
            None => member(member_views(members@), name@) is None,
        },
{
    proof {
        lemma_member_views(members@);
        assert(views_before(members@, members.len() as int) =~= member_views(members@));
    }
    find_within(members, members.len(), name)
}

/// The number that `value` is, where it is one that fits in `i32`.
pub(crate) fn number_of(value: &Json) -> (number: Option<i32>)
    ensures
        number == as_i32(value@),
{
    match value {
        Json::Int(i) => if -2147483648 <= *i && *i <= 2147483647 {
            Some(*i as i32)
        } else {
            None
        },
        Json::UInt(u) => if *u <= 2147483647 {
            Some(*u as i32)
        } else {
            None
        },
        _ => None,
    }
}

/// Reads the string that has to stand under `name`.
pub(crate) fn read_text(members: &Vec<(String, Json)>, name: &str) -> (text: Option<String>)
    ensures
        text_view(text) == required_text(member_views(members@), name@),
{
    match find_member(members, name) {
        Some(Json::Text(text)) => Some(text.clone()),
        _ => None,
    }
}

/// Reads the number that has to stand under `name`.
pub(crate) fn read_i32(members: &Vec<(String, Json)>, name: &str) -> (number: Option<i32>)
    ensures
        number == required_i32(member_views(members@), name@),
{
    match find_member(members, name) {
        Some(value) => number_of(value),
        None => None,
    }
}

/// Reads the string that may stand under `name`.
pub(crate) fn read_optional_text(members: &Vec<(String, Json)>, name: &str) -> (text: Result<
    Option<String>,
    (),
>)
    ensures
        match text {
            Ok(t) => optional_text(member_views(members@), name@) == Ok::<_, ()>(text_view(t)),
            Err(_) => optional_text(member_views(members@), name@) is Err,
        },
{
    match find_member(members, name) {
        None => Ok(None),
        Some(Json::Null) => Ok(None),
        Some(Json::Text(text)) => Ok(Some(text.clone())),
        Some(_) => Err(()),
    }
}

/// Reads the number that may stand under `name`.
pub(crate) fn read_optional_i32(members: &Vec<(String, Json)>, name: &str) -> (number: Result<
    Option<i32>,
    (),
>)
    ensures
        match number {
            Ok(n) => optional_i32(member_views(members@), name@) == Ok::<_, ()>(n),
            Err(_) => optional_i32(member_views(members@), name@) is Err,
        },
{
    match find_member(members, name) {
        None => Ok(None),
        Some(Json::Null) => Ok(None),
        Some(value) => match number_of(value) {
            Some(n) => Ok(Some(n)),
            None => Err(()),
        },
    }
}

} // verus!
