//! URLs and their query parameters.

use vstd::prelude::*;

verus! {

/// A parsed URL.
#[verifier::external_type_specification]
#[verifier::external_body]
pub struct ExUrl(url::Url);

/// Why a text is no URL.
#[verifier::external_type_specification]
#[verifier::external_body]
pub struct ExParseError(url::ParseError);

/// The query parameters of a URL, as `Url::query_pairs` lists them.
pub uninterp spec fn url_pairs(url: url::Url) -> Seq<(Seq<char>, Seq<char>)>;

/// The text of a URL without its query.
pub uninterp spec fn url_target(url: url::Url) -> Seq<char>;

/// What `Url::parse` makes of a text: the URL's text without its query, and its
/// query parameters; nothing where the text is no URL.
pub uninterp spec fn url_parse(text: Seq<char>) -> Option<
    (Seq<char>, Seq<(Seq<char>, Seq<char>)>),
>;

/// Pairs of texts by their characters.
pub open spec fn pair_texts(pairs: Seq<(&str, &str)>) -> Seq<(Seq<char>, Seq<char>)> {
    pairs.map_values(|pair: (&str, &str)| (pair.0@, pair.1@))
}

/// The bytes of all names and values.
pub open spec fn pairs_size(pairs: Seq<(Seq<char>, Seq<char>)>) -> nat
    decreases pairs.len(),
{
    if pairs.len() == 0 {
        0
    } else {
        pairs_size(pairs.drop_last()) + vstd::utf8::encode_utf8(pairs.last().0).len()
            + vstd::utf8::encode_utf8(pairs.last().1).len() + 2
    }
}

/// Whether a URL text and the parameters that go with it stay within the offsets
/// of 32 bits that a URL keeps of its parts, however much they grow when they are
/// encoded. Parameters grow to three times their size. A host name in another
/// script grows most: one character of three bytes can be mapped to eighteen,
/// each of which takes seven digits in ASCII. Parameters have an offset behind
/// them only where a fragment follows.
pub open spec fn url_fits(base: Seq<char>, pairs: Seq<(Seq<char>, Seq<char>)>) -> bool {
    &&& vstd::utf8::encode_utf8(base).len() <= 0x0400_0000
    &&& base.contains('#') ==> pairs_size(pairs) <= 0x1d00_0000
}

/// `Url::parse`, then `clear` and `extend_pairs` on `Url::query_pairs_mut`: the
/// parameters take the place of those in the text, and read back as they were
/// given; the rest of the URL stays. Names and values are encoded, so any texts
/// may be given.
#[verifier::external_body]
pub(crate) fn url_replacing(base: &str, pairs: &[(&str, &str)]) -> (r: Result<
    url::Url,
    url::ParseError,
>)
    requires
        url_fits(base@, pair_texts(pairs@)),
    ensures
        match r {
            Ok(url) => url_parse(base@) matches Some(parsed) && url_target(url) == parsed.0
                && url_pairs(url) == pair_texts(pairs@),
            Err(_) => url_parse(base@) is None,
        },
{
    let mut url = url::Url::parse(base)?;
    url.query_pairs_mut().clear().extend_pairs(pairs);
    Ok(url)
}

/// `Url::parse_with_params`: the parameters follow those in the text, and read
/// back as they were given; the rest of the URL stays. Names and values are
/// encoded, so any texts may be given.
#[verifier::external_body]
pub(crate) fn url_adding(base: &str, pairs: &[(&str, &str)]) -> (r: Result<
    url::Url,
    url::ParseError,
>)
    requires
        url_fits(base@, pair_texts(pairs@)),
    ensures
        match r {
            Ok(url) => url_parse(base@) matches Some(parsed) && url_target(url) == parsed.0
                && url_pairs(url) == parsed.1 + pair_texts(pairs@),
            Err(_) => url_parse(base@) is None,
        },
{
    url::Url::parse_with_params(base, pairs)
}

/// `Url::parse` and `Url::scheme`: the scheme is what stands before the first
/// colon of the URL.
#[verifier::external_body]
pub(crate) fn url_scheme(text: &str) -> (r: Option<String>)
    ensures
        match r {
            Some(scheme) => url_parse(text@) matches Some(parsed) && crate::text::split_first(
                parsed.0,
                ':',
            ) matches Some(parts) && parts.0 == scheme@,
            None => url_parse(text@) is None,
        },
{
    url::Url::parse(text).ok().map(|url| url.scheme().to_owned())
}

/// Parameters are known by each of their names and values in its place.
pub proof fn law_parameters_are_known_by_their_texts(pairs: Seq<(&str, &str)>, i: int)
    ensures
        pair_texts(pairs).len() == pairs.len(),
        0 <= i < pairs.len() ==> pair_texts(pairs)[i].0 == pairs[i].0@ && pair_texts(pairs)[i].1
            == pairs[i].1@,
{
}

} // verus!
