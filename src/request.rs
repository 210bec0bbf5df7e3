use vstd::prelude::*;

use vstd::utf8::encode_utf8;

use crate::text::{decimal, hex_digit, push_decimal, push_hex_digit};

verus! {

/// Which of the two upstream operations a request asks for.
pub enum FetchKind {
    /// Weather right now (`current.json`).
    Current,
    /// Weather for the next `days` days (`forecast.json`).
    Forecast { days: u32 },
}

/// A character that a URL query may hold as it is (RFC 3986 "unreserved").
pub open spec fn is_unreserved(c: char) -> bool {
    ('a' <= c && c <= 'z') || ('A' <= c && c <= 'Z') || ('0' <= c && c <= '9') || c == '-'
        || c == '.' || c == '_' || c == '~'
}

/// `%XX` for each byte, in order.
pub open spec fn percent_bytes(b: Seq<u8>) -> Seq<char>
    decreases b.len(),
{
    if b.len() == 0 {
        Seq::empty()
    } else {
        percent_bytes(b.drop_last()) + seq![
            '%',
            hex_digit((b.last() / 16) as int),
            hex_digit((b.last() % 16) as int),
        ]
    }
}

/// One character as it stands in a query: itself if unreserved, else its
/// UTF-8 bytes percent-encoded.
pub open spec fn encode_char(c: char) -> Seq<char> {
    if is_unreserved(c) {
        seq![c]
    } else {
        percent_bytes(encode_utf8(seq![c]))
    }
}

/// A text percent-encoded as one query parameter value.
pub open spec fn encode_query(s: Seq<char>) -> Seq<char>
    decreases s.len(),
{
    if s.len() == 0 {
        Seq::empty()
    } else {
        encode_query(s.drop_last()) + encode_char(s.last())
    }
}

/// The URL of the current-weather operation.
pub open spec fn current_url(base: Seq<char>, key: Seq<char>, city: Seq<char>) -> Seq<char> {
    base + "/current.json?key="@ + key + "&q="@ + encode_query(city) + "&aqi=yes"@
}

/// The URL of the forecast operation for `days` days.
pub open spec fn forecast_url(base: Seq<char>, key: Seq<char>, city: Seq<char>, days: nat) -> Seq<char> {
    base + "/forecast.json?key="@ + key + "&q="@ + encode_query(city) + "&aqi=no&days="@
        + decimal(days) + "&alerts=no"@
}

/// The URL that a request of `kind` goes to.
pub open spec fn url_of(base: Seq<char>, key: Seq<char>, city: Seq<char>, kind: FetchKind) -> Seq<char> {
    match kind {
        FetchKind::Current => current_url(base, key, city),
        FetchKind::Forecast { days } => forecast_url(base, key, city, days as nat),
    }
}

proof fn lemma_encode_unreserved(s: Seq<char>)
    requires
        forall|i: int| 0 <= i < s.len() ==> is_unreserved(#[trigger] s[i]),
    ensures
        encode_query(s) == s,
    decreases s.len(),
{
    if s.len() > 0 {
        lemma_encode_unreserved(s.drop_last());
        assert(is_unreserved(s[s.len() - 1]));
        assert(s.drop_last().push(s.last()) =~= s);
    }
}

/// A city made of unreserved characters only (letters, digits, `-._~`)
/// stands in the URL as it is: the current-weather URL is exactly
/// `B/current.json?key=K&q=C&aqi=yes` and the forecast URL exactly
/// `B/forecast.json?key=K&q=C&aqi=no&days=N&alerts=no`.
pub proof fn lemma_plain_city_urls(base: Seq<char>, key: Seq<char>, city: Seq<char>, days: u32)
    requires
        forall|i: int| 0 <= i < city.len() ==> is_unreserved(#[trigger] city[i]),
    ensures
        url_of(base, key, city, FetchKind::Current) == base + "/current.json?key="@ + key + "&q="@
            + city + "&aqi=yes"@,
        url_of(base, key, city, FetchKind::Forecast { days }) == base + "/forecast.json?key="@
            + key + "&q="@ + city + "&aqi=no&days="@ + decimal(days as nat) + "&alerts=no"@,
{
    lemma_encode_unreserved(city);
}

/// Appends `city`, percent-encoded as a query value, to `out`.
fn push_query_value(out: &mut String, city: &str)
    ensures
        final(out)@ == old(out)@ + encode_query(city@),
{
    let n = city.unicode_len();
    let mut i: usize = 0;
    while i < n
        invariant
            n == city@.len(),
            i <= n,
            out@ == old(out)@ + encode_query(city@.subrange(0, i as int)),
        decreases n - i,
    {
        let piece = city.substring_char(i, i + 1);
        let c = city.get_char(i);
        assert(piece@ =~= seq![c]);
        let ghost before = out@;
        if ('a' <= c && c <= 'z') || ('A' <= c && c <= 'Z') || ('0' <= c && c <= '9') || c == '-'
            || c == '.' || c == '_' || c == '~' {
            out.append(piece);
        } else {
            let bytes = piece.as_bytes();
            let m = bytes.len();
            let mut j: usize = 0;
            while j < m
                invariant
                    m == bytes@.len(),
                    bytes@ == encode_utf8(seq![c]),
                    j <= m,
                    out@ == before + percent_bytes(bytes@.subrange(0, j as int)),
                decreases m - j,
            {
                let b = bytes[j];
                out.append("%");
                proof {
                    reveal_strlit("%");
                }
                push_hex_digit(out, b / 16);
                push_hex_digit(out, b % 16);
                assert(bytes@.subrange(0, j + 1).drop_last() =~= bytes@.subrange(0, j as int));
                assert(out@ =~= before + percent_bytes(bytes@.subrange(0, j + 1)));
                j = j + 1;
            }
            assert(bytes@.subrange(0, m as int) =~= bytes@);
        }
        assert(city@.subrange(0, i + 1).drop_last() =~= city@.subrange(0, i as int));
        assert(out@ =~= old(out)@ + encode_query(city@.subrange(0, i + 1)));
        i = i + 1;
    }
    assert(city@.subrange(0, n as int) =~= city@);
}

/// Builds the URL of a request of `kind` for `city`, with `base` the API's
/// root and `key` the API key. The city is percent-encoded; the other parts
/// are taken as they are.
pub fn request_url(base: &str, key: &str, city: &str, kind: &FetchKind) -> (r: String)
    ensures
        r@ == url_of(base@, key@, city@, *kind),
{
    let mut url = String::from_str(base);
    match kind {
        FetchKind::Current => {
            url.append("/current.json?key=");
            url.append(key);
            url.append("&q=");
            push_query_value(&mut url, city);
            url.append("&aqi=yes");
        },
        FetchKind::Forecast { days } => {
            url.append("/forecast.json?key=");
            url.append(key);
            url.append("&q=");
            push_query_value(&mut url, city);
            url.append("&aqi=no&days=");
            push_decimal(&mut url, *days as u128);
            url.append("&alerts=no");
        },
    }
    assert(url@ =~= url_of(base@, key@, city@, *kind));
    url
}

} // verus!
