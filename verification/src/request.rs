//! What a consumer asks of a provider, the URL that carries the question,
//! and the reading of the answer.
//!
//! Sending the request is not done here. A caller builds the target with
//! [`request_url`], performs one GET on it, and hands the status and the
//! body to [`read_response`].

use reqwest::Url;
use vstd::prelude::*;
use vstd::utf8::encode_utf8;
use crate::decode::decoded_body;
use crate::error::{Error, TransportError};
use crate::response::{Response, ResponseView};
use crate::text::{decimal, decimal_text};

verus! {

/// The name of the parameter that carries the URL asked about.
pub const PARAM_URL: &'static str = "url";

/// The name of the parameter that carries the largest width wanted.
pub const PARAM_MAX_WIDTH: &'static str = "maxwidth";

/// The name of the parameter that carries the largest height wanted.
pub const PARAM_MAX_HEIGHT: &'static str = "maxheight";

/// The largest number of bytes that a URL may have.
pub const URL_LIMIT: usize = 4294967295;

/// What a consumer asks: the URL to describe, the largest size wanted, and
/// further parameters for the provider.
pub struct ConsumerRequest<'a> {
    pub url: &'a str,
    pub max_width: Option<i32>,
    pub max_height: Option<i32>,
    /// Further parameters, each a name and a value. They stand for a
    /// mapping, so no name should occur twice; they are sent in this order.
    pub params: Option<Vec<(&'a str, &'a str)>>,
}

/// The parameters of a query, each a name and a value.
pub type Pairs = Seq<(Seq<char>, Seq<char>)>;

/// The views of owned pairs.
pub open spec fn pair_views(pairs: Seq<(String, String)>) -> Pairs {
    Seq::new(pairs.len(), |i: int| (pairs[i].0@, pairs[i].1@))
}

/// The views of borrowed pairs.
pub open spec fn param_views(params: Seq<(&str, &str)>) -> Pairs {
    Seq::new(params.len(), |i: int| (params[i].0@, params[i].1@))
}

/// The parameter for a size, where one is set.
pub open spec fn size_pair(name: Seq<char>, size: Option<i32>) -> Pairs {
    match size {
        Some(n) => seq![(name, decimal(n as int))],
        None => Seq::empty(),
    }
}

impl<'a> ConsumerRequest<'a> {
    /// The further parameters, none where the field is not set.
    pub open spec fn further(&self) -> Pairs {
        match self.params {
            Some(params) => param_views(params@),
            None => Seq::empty(),
        }
    }

    /// The parameters that the request is sent with: `url` always and
    /// first, then `maxwidth` and `maxheight` where they are set, written to
    /// base ten, then the further parameters as they stand. Nothing is
    /// taken out, also where a further parameter bears one of these names.
    pub open spec fn pairs(&self) -> Pairs {
        seq![(PARAM_URL@, self.url@)] + size_pair(PARAM_MAX_WIDTH@, self.max_width) + size_pair(
            PARAM_MAX_HEIGHT@,
            self.max_height,
        ) + self.further()
    }

    /// The further parameters are a mapping: no name occurs twice.
    pub open spec fn is_mapping(&self) -> bool {
        forall|i: int, j: int|
            0 <= i < j < self.further().len() ==> (#[trigger] self.further()[i]).0
                != (#[trigger] self.further()[j]).0
    }

    /// The parameters that the request is sent with, in order.
    pub fn query_pairs(&self) -> (pairs: Vec<(String, String)>)
        ensures
            pair_views(pairs@) == self.pairs(),
    {
        let mut pairs: Vec<(String, String)> = Vec::new();
        pairs.push((PARAM_URL.to_owned(), self.url.to_owned()));
        if let Some(width) = self.max_width {
            pairs.push((PARAM_MAX_WIDTH.to_owned(), decimal_text(width)));
        }
        if let Some(height) = self.max_height {
            pairs.push((PARAM_MAX_HEIGHT.to_owned(), decimal_text(height)));
        }
        let ghost fixed = seq![(PARAM_URL@, self.url@)] + size_pair(
            PARAM_MAX_WIDTH@,
            self.max_width,
        ) + size_pair(PARAM_MAX_HEIGHT@, self.max_height);
        assert(pair_views(pairs@) =~= fixed);
        if let Some(params) = &self.params {
            let mut i: usize = 0;
            while i < params.len()
                invariant
                    i <= params.len(),
                    self.params == Some(*params),
                    pair_views(pairs@) == fixed + param_views(params@).take(i as int),
                decreases params.len() - i,
            {
                let ghost before = pair_views(pairs@);
                pairs.push((params[i].0.to_owned(), params[i].1.to_owned()));
                assert(pair_views(pairs@) =~= before.push((params[i as int].0@, params[i as int].1@)));
                assert(fixed + param_views(params@).take(i + 1) =~= before.push(
                    (params[i as int].0@, params[i as int].1@),
                ));
                i += 1;
            }
            assert(param_views(params@).take(i as int) =~= param_views(params@));
        } else {
            assert(fixed + self.further() =~= fixed);
        }
        pairs
    }
}

impl<'a> Default for ConsumerRequest<'a> {
    /// A request about the empty URL, with no size and no parameters.
    fn default() -> (request: Self)
        ensures
            request.url@ == Seq::<char>::empty(),
            request.max_width is None,
            request.max_height is None,
            request.params is None,
    {
        proof {
            reveal_strlit("");
        }
        let url = "";
        assert(url@ =~= Seq::<char>::empty());
        ConsumerRequest { url, max_width: None, max_height: None, params: None }
    }
}

/// The number of bytes that `text` takes.
pub open spec fn byte_len(text: Seq<char>) -> nat {
    encode_utf8(text).len()
}

/// An upper bound for the number of bytes that the parameters add to a URL:
/// three for each byte of a name or a value, and two more for each pair.
pub open spec fn query_cost(pairs: Pairs) -> nat
    decreases pairs.len(),
{
    if pairs.len() == 0 {
        0
    } else {
        query_cost(pairs.drop_last()) + 3 * (byte_len(pairs.last().0) + byte_len(pairs.last().1))
            + 2
    }
}

/// Tells whether the parameters cost no more than `room` bytes.
fn fits(pairs: &Vec<(String, String)>, room: usize) -> (enough: bool)
    ensures
        enough == (query_cost(pair_views(pairs@)) <= room),
{
    let ghost views = pair_views(pairs@);
    let mut spent: usize = 0;
    let mut i: usize = 0;
    assert(views.take(0) =~= Seq::empty());
    while i < pairs.len()
        invariant
            i <= pairs.len(),
            views == pair_views(pairs@),
            spent == query_cost(views.take(i as int)),
            spent <= room,
        decreases pairs.len() - i,
    {
        let name_bytes = pairs[i].0.as_str().as_bytes().len();
        let value_bytes = pairs[i].1.as_str().as_bytes().len();
        let cost: u128 = 3 * (name_bytes as u128 + value_bytes as u128) + 2;
        proof {
            let upto = views.take(i + 1);
            assert(views[i as int] == (pairs[i as int].0@, pairs[i as int].1@));
            assert(name_bytes == byte_len(pairs[i as int].0@));
            assert(value_bytes == byte_len(pairs[i as int].1@));
            assert(upto.drop_last() =~= views.take(i as int));
            assert(upto.last() == views[i as int]);
            assert(query_cost(upto) == spent + cost);
            lemma_cost_grows(views, i + 1);
        }
        if cost > (room - spent) as u128 {
            return false;
        }
        spent = spent + cost as usize;
        i += 1;
    }
    assert(views.take(i as int) =~= views);
    true
}

/// The cost of all parameters is at least the cost of the first of them.
pub proof fn lemma_cost_grows(pairs: Pairs, upto: int)
    requires
        0 <= upto <= pairs.len(),
    ensures
        query_cost(pairs.take(upto)) <= query_cost(pairs),
    decreases pairs.len() - upto,
{
    if upto < pairs.len() {
        lemma_cost_grows(pairs, upto + 1);
        assert(pairs.take(upto + 1).drop_last() =~= pairs.take(upto));
    } else {
        assert(pairs.take(upto) =~= pairs);
    }
}

/// `reqwest::Url`, carried through as it is.
#[verifier::external_type_specification]
#[verifier::external_body]
pub struct ExUrl(reqwest::Url);

/// The text of a URL, as it is written out.
pub uninterp spec fn url_text(url: Url) -> Seq<char>;

/// The text of the URL that an endpoint is read as, or `None` where the
/// endpoint is no URL.
pub uninterp spec fn parsed_endpoint(endpoint: Seq<char>) -> Option<Seq<char>>;

/// The text of a URL after the parameters were added to its query.
pub uninterp spec fn with_query(base: Seq<char>, pairs: Seq<(Seq<char>, Seq<char>)>) -> Seq<char>;

/// `Url::parse`. The contract claims that the outcome depends on the text
/// alone: the same endpoint is always read as the same URL, or never as one.
#[verifier::external_body]
fn parse_endpoint(endpoint: &str) -> (url: Option<Url>)
    ensures
        match url {
            Some(u) => parsed_endpoint(endpoint@) == Some(url_text(u)),
            None => parsed_endpoint(endpoint@) is None,
        },
{
    Url::parse(endpoint).ok()
}

/// `Url::as_str`: the text of the URL, copied.
#[verifier::external_body]
fn text_of(url: &Url) -> (text: String)
    ensures
        text@ == url_text(*url),
{
    url.as_str().to_owned()
}

/// `Url::query_pairs_mut` with `extend_pairs`: adds each pair to the query,
/// in order, in the form of `application/x-www-form-urlencoded`. The
/// contract claims that the new text depends on the old text and on the
/// pairs alone. The call fails where the URL grows beyond the limit, which
/// `requires` leaves out: each byte of a pair adds three bytes at most, and
/// each pair two separators.
#[verifier::external_body]
fn extend_query(url: &mut Url, pairs: &Vec<(String, String)>)
    requires
        byte_len(url_text(*old(url))) + query_cost(pair_views(pairs@)) < URL_LIMIT,
    ensures
        url_text(*final(url)) == with_query(url_text(*old(url)), pair_views(pairs@)),
{
    url.query_pairs_mut().extend_pairs(pairs);
}

/// The target of a request: the endpoint, read as a URL, with the
/// parameters added to its query.
pub open spec fn request_target(endpoint: Seq<char>, pairs: Pairs) -> Result<Seq<char>, Error> {
    match parsed_endpoint(endpoint) {
        None => Err(Error::Transport(TransportError::Endpoint)),
        Some(base) => if byte_len(base) + query_cost(pairs) < URL_LIMIT {
            Ok(with_query(base, pairs))
        } else {
            Err(Error::Transport(TransportError::TooLong))
        },
    }
}

/// Builds the URL to send `request` to.
///
/// The endpoint has to be a URL (else `Endpoint`). The parameters of the
/// request are added to its query, after what the endpoint has there
/// already. Where the result could be longer than a URL can be, nothing is
/// built (`TooLong`).
pub fn request_url(endpoint: &str, request: &ConsumerRequest<'_>) -> (target: Result<
    String,
    Error,
>)
    ensures
        match target {
            Ok(text) => request_target(endpoint@, request.pairs()) == Ok::<_, Error>(text@),
            Err(error) => request_target(endpoint@, request.pairs()) == Err::<Seq<char>, _>(
                error,
            ),
        },
{
    let mut url = match parse_endpoint(endpoint) {
        Some(url) => url,
        None => {
            return Err(Error::Transport(TransportError::Endpoint));
        },
    };
    let pairs = request.query_pairs();
    let base = text_of(&url);
    let used = base.as_str().as_bytes().len();
    assert(used == byte_len(url_text(url)));
    if used >= URL_LIMIT || !fits(&pairs, URL_LIMIT - used - 1) {
        return Err(Error::Transport(TransportError::TooLong));
    }
    extend_query(&mut url, &pairs);
    Ok(text_of(&url))
}

/// A status that stands for success: 200 to 299.
pub open spec fn is_success(status: u16) -> bool {
    200 <= status <= 299
}

/// What an answer means. Any status but a success is a failure of the
/// transport, whatever the body holds; the body of a success is decoded, and
/// a body that cannot be decoded is a failure of its own kind.
pub open spec fn answer(status: u16, body: Seq<u8>) -> Result<ResponseView, Error> {
    if !is_success(status) {
        Err(Error::Transport(TransportError::Status(status)))
    } else {
        match decoded_body(body) {
            Ok(response) => Ok(response),
            Err(error) => Err(Error::Decode(error)),
        }
    }
}

/// The view of what reading an answer gave.
pub open spec fn answer_view(outcome: Result<Response, Error>) -> Result<ResponseView, Error> {
    match outcome {
        Ok(response) => Ok(response@),
        Err(error) => Err(error),
    }
}

/// Reads the answer of a provider: its status and its body.
pub fn read_response(status: u16, body: &[u8]) -> (outcome: Result<Response, Error>)
    ensures
        answer_view(outcome) == answer(status, body@),
        !is_success(status) ==> outcome == Err::<Response, _>(
            Error::Transport(TransportError::Status(status)),
        ),
        outcome matches Ok(response) ==> response.wf(),
{
    if status < 200 || status > 299 {
        return Err(Error::Transport(TransportError::Status(status)));
    }
    match Response::decode(body) {
        Ok(response) => Ok(response),
        Err(error) => Err(Error::Decode(error)),
    }
}

} // verus!
