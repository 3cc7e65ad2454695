//! The request URLs of the FXMacroData API.

use vstd::prelude::*;
use vstd::string::{StringExecFns, StringSliceAdditionalSpecFns};
use vstd::utf8::encode_utf8;

use crate::text::push_char;

verus! {

/// Whether `c` has the Unicode property `White_Space`.
pub open spec fn is_unicode_whitespace(c: char) -> bool {
    let u = c as u32;
    ||| 0x09 <= u <= 0x0d
    ||| u == 0x20
    ||| u == 0x85
    ||| u == 0xa0
    ||| u == 0x1680
    ||| 0x2000 <= u <= 0x200a
    ||| u == 0x2028
    ||| u == 0x2029
    ||| u == 0x202f
    ||| u == 0x205f
    ||| u == 0x3000
}

/// The text without its leading whitespace.
pub open spec fn trim_start(s: Seq<char>) -> Seq<char>
    decreases s.len(),
{
    if s.len() > 0 && is_unicode_whitespace(s[0]) {
        trim_start(s.drop_first())
    } else {
        s
    }
}

/// The text without its trailing whitespace.
pub open spec fn trim_end(s: Seq<char>) -> Seq<char>
    decreases s.len(),
{
    if s.len() > 0 && is_unicode_whitespace(s.last()) {
        trim_end(s.drop_last())
    } else {
        s
    }
}

/// The text without its leading and trailing whitespace.
pub open spec fn trimmed(s: Seq<char>) -> Seq<char> {
    trim_end(trim_start(s))
}

/// The ASCII lower case of a character: `A` to `Z` become `a` to `z`, others stay.
pub open spec fn ascii_lower(c: char) -> char {
    if 'A' <= c <= 'Z' {
        ((c as u32) + 32) as char
    } else {
        c
    }
}

/// The text with each character mapped to its ASCII lower case.
pub open spec fn ascii_lowercase(s: Seq<char>) -> Seq<char> {
    s.map_values(|c: char| ascii_lower(c))
}

/// A currency or symbol as it stands in a request path: trimmed and in ASCII lower case.
pub open spec fn spec_norm(value: Seq<char>) -> Seq<char> {
    ascii_lowercase(trimmed(value))
}

/// Whether the byte stands for itself in a URL query: an ASCII letter or digit, `-`, `_`,
/// `.` or `~`.
pub open spec fn is_unreserved(b: u8) -> bool {
    ||| 0x30 <= b <= 0x39
    ||| 0x41 <= b <= 0x5a
    ||| 0x61 <= b <= 0x7a
    ||| b == 0x2d
    ||| b == 0x5f
    ||| b == 0x2e
    ||| b == 0x7e
}

/// The upper case hexadecimal digit of a value below 16.
pub open spec fn hex_char(d: int) -> char {
    if d < 10 {
        (48 + d) as char
    } else {
        (55 + d) as char
    }
}

/// The text of one byte in a URL query: the byte itself, or `%` and two upper case
/// hexadecimal digits.
pub open spec fn encoded_byte(b: u8) -> Seq<char> {
    if is_unreserved(b) {
        seq![b as char]
    } else {
        seq!['%', hex_char((b / 16) as int), hex_char((b % 16) as int)]
    }
}

/// The percent-encoding of the bytes.
pub open spec fn spec_encode(bytes: Seq<u8>) -> Seq<char>
    decreases bytes.len(),
{
    if bytes.len() == 0 {
        Seq::empty()
    } else {
        spec_encode(bytes.drop_last()) + encoded_byte(bytes.last())
    }
}

/// The base URL of the API.
pub open spec fn spec_base_url() -> Seq<char> {
    "https://api.fxmacrodata.com/v1"@
}

/// The URL of `path` below `base_url`, with the API key as a query parameter where there
/// is a key that is not empty.
pub open spec fn spec_url(base_url: Seq<char>, api_key: Option<Seq<char>>, path: Seq<char>) -> Seq<
    char,
> {
    match api_key {
        Some(key) => if key.len() > 0 {
            base_url + path + "?api_key="@ + spec_encode(encode_utf8(key))
        } else {
            base_url + path
        },
        None => base_url + path,
    }
}

/// The characters of a text.
fn chars_of(s: &str) -> (v: Vec<char>)
    ensures
        v@ == s@,
{
    broadcast use vstd::string::axiom_spec_iter;

    let mut v: Vec<char> = Vec::new();
    for c in it: s.chars()
        invariant
            it.seq() == s@,
            v@.len() == it.index(),
            forall|k: int| 0 <= k < v@.len() ==> v@[k] == it.seq()[k],
    {
        v.push(c);
    }
    v
}

/// Whether `c` has the Unicode property `White_Space`.
fn is_whitespace(c: char) -> (r: bool)
    ensures
        r == is_unicode_whitespace(c),
{
    let u = c as u32;
    (0x09 <= u && u <= 0x0d) || u == 0x20 || u == 0x85 || u == 0xa0 || u == 0x1680 || (0x2000 <= u
        && u <= 0x200a) || u == 0x2028 || u == 0x2029 || u == 0x202f || u == 0x205f || u == 0x3000
}

/// The ASCII lower case of a character.
fn lower_char(c: char) -> (r: char)
    ensures
        r == ascii_lower(c),
{
    if 'A' <= c && c <= 'Z' {
        let b = (c as u8) + 32;
        b as char
    } else {
        c
    }
}

/// Trimming drops leading whitespace one character at a time.
proof fn lemma_trim_start_skip(s: Seq<char>, i: int)
    requires
        0 <= i < s.len(),
        is_unicode_whitespace(s[i]),
    ensures
        trim_start(s.subrange(i, s.len() as int)) == trim_start(s.subrange(i + 1, s.len() as int)),
{
    let t = s.subrange(i, s.len() as int);
    assert(t.drop_first() =~= s.subrange(i + 1, s.len() as int));
}

/// Trimming drops trailing whitespace one character at a time.
proof fn lemma_trim_end_skip(s: Seq<char>, i: int, j: int)
    requires
        0 <= i < j <= s.len(),
        is_unicode_whitespace(s[j - 1]),
    ensures
        trim_end(s.subrange(i, j)) == trim_end(s.subrange(i, j - 1)),
{
    let t = s.subrange(i, j);
    assert(t.drop_last() =~= s.subrange(i, j - 1));
}

/// A currency or symbol as it stands in a request path: trimmed of Unicode whitespace and
/// in ASCII lower case.
fn norm(value: &str) -> (r: String)
    ensures
        r@ == spec_norm(value@),
{
    let v = chars_of(value);
    let n = v.len();
    let mut i: usize = 0;
    proof {
        assert(v@.subrange(0, n as int) =~= v@);
    }
    while i < n && is_whitespace(v[i])
        invariant
            i <= n,
            n == v@.len(),
            trim_start(v@) == trim_start(v@.subrange(i as int, n as int)),
        decreases n - i,
    {
        proof {
            lemma_trim_start_skip(v@, i as int);
        }
        i = i + 1;
    }
    proof {
        assert(v@.subrange(0, n as int) =~= v@);
        assert(trim_start(v@) == v@.subrange(i as int, n as int));
    }
    let mut j: usize = n;
    while j > i && is_whitespace(v[j - 1])
        invariant
            i <= j <= n,
            n == v@.len(),
            trim_end(v@.subrange(i as int, n as int)) == trim_end(v@.subrange(i as int, j as int)),
        decreases j - i,
    {
        proof {
            lemma_trim_end_skip(v@, i as int, j as int);
        }
        j = j - 1;
    }
    proof {
        assert(trim_end(v@.subrange(i as int, j as int)) == v@.subrange(i as int, j as int));
    }
    let ghost t = v@.subrange(i as int, j as int);
    let mut out = String::new();
    let mut k: usize = i;
    while k < j
        invariant
            i <= k <= j <= n,
            n == v@.len(),
            t == v@.subrange(i as int, j as int),
            out@ == ascii_lowercase(v@.subrange(i as int, k as int)),
        decreases j - k,
    {
        let c = lower_char(v[k]);
        push_char(&mut out, c);
        proof {
            assert(v@.subrange(i as int, k + 1) =~= v@.subrange(i as int, k as int).push(v@[k as int]));
            assert(ascii_lowercase(v@.subrange(i as int, k + 1)) =~= ascii_lowercase(
                v@.subrange(i as int, k as int),
            ).push(c));
        }
        k = k + 1;
    }
    out
}

/// The upper case hexadecimal digit of `d`.
fn hex_digit(d: u8) -> (r: char)
    requires
        d < 16,
    ensures
        r == hex_char(d as int),
{
    if d < 10 {
        (48u8 + d) as char
    } else {
        (55u8 + d) as char
    }
}

/// The percent-encoding of the UTF-8 bytes of `value`.
pub fn encode(value: &str) -> (r: String)
    ensures
        r@ == spec_encode(value.spec_bytes()),
{
    let bytes = value.as_bytes();
    let mut output = String::new();
    let mut i: usize = 0;
    while i < bytes.len()
        invariant
            i <= bytes@.len(),
            bytes@ == value.spec_bytes(),
            output@ == spec_encode(bytes@.subrange(0, i as int)),
        decreases bytes@.len() - i,
    {
        let byte = bytes[i];
        let ghost before = output@;
        if (0x30u8 <= byte && byte <= 0x39u8) || (0x41u8 <= byte && byte <= 0x5au8) || (0x61u8
            <= byte && byte <= 0x7au8) || byte == 0x2du8 || byte == 0x5fu8 || byte == 0x2eu8
            || byte == 0x7eu8 {
            push_char(&mut output, byte as char);
        } else {
            push_char(&mut output, '%');
            push_char(&mut output, hex_digit(byte / 16));
            push_char(&mut output, hex_digit(byte % 16));
        }
        proof {
            assert(bytes@.subrange(0, i + 1).drop_last() =~= bytes@.subrange(0, i as int));
            assert(output@ =~= before + encoded_byte(byte));
        }
        i = i + 1;
    }
    proof {
        assert(bytes@.subrange(0, i as int) =~= bytes@);
    }
    output
}

/// A client of the FXMacroData API, which builds the URLs of its requests.
#[derive(Clone, Debug)]
pub struct FXMacroDataClient {
    base_url: String,
    api_key: Option<String>,
}

impl FXMacroDataClient {
    pub closed spec fn spec_base_url(&self) -> Seq<char> {
        self.base_url@
    }

    pub closed spec fn spec_api_key(&self) -> Option<Seq<char>> {
        match self.api_key {
            Some(key) => Some(key@),
            None => None,
        }
    }

    /// The URL of a request for `path`.
    pub open spec fn spec_request(&self, path: Seq<char>) -> Seq<char> {
        spec_url(self.spec_base_url(), self.spec_api_key(), path)
    }

    /// A client with the given API key; an empty key means no key.
    pub fn new(api_key: &str) -> (r: Self)
        ensures
            r.spec_base_url() == spec_base_url(),
            r.spec_api_key() == if api_key@.len() == 0 {
                None
            } else {
                Some(api_key@)
            },
    {
        FXMacroDataClient {
            base_url: String::from_str("https://api.fxmacrodata.com/v1"),
            api_key: if api_key.is_empty() {
                None
            } else {
                Some(String::from_str(api_key))
            },
        }
    }

    /// The URL of `path`, with the API key as a query parameter where there is a key.
    fn url(&self, path: &str) -> (r: String)
        ensures
            r@ == self.spec_request(path@),
    {
        let mut out = self.base_url.clone();
        out.append(path);
        match &self.api_key {
            Some(key) => {
                if !key.as_str().is_empty() {
                    out.append("?api_key=");
                    let encoded = encode(key.as_str());
                    out.append(encoded.as_str());
                }
            },
            None => {},
        }
        out
    }

    /// The URL of `prefix` followed by the normalized `currency`.
    fn url_of_currency(&self, prefix: &str, currency: &str) -> (r: String)
        ensures
            r@ == self.spec_request(prefix@ + spec_norm(currency@)),
    {
        let mut path = String::from_str(prefix);
        let normed = norm(currency);
        path.append(normed.as_str());
        self.url(path.as_str())
    }

    /// The data catalogue of a currency.
    pub fn data_catalogue(&self, currency: &str) -> (r: String)
        ensures
            r@ == self.spec_request("/data_catalogue/"@ + spec_norm(currency@)),
    {
        self.url_of_currency("/data_catalogue/", currency)
    }

    /// The announcements of an indicator of a currency.
    pub fn announcements(&self, currency: &str, indicator: &str) -> (r: String)
        ensures
            r@ == self.spec_request(
                "/announcements/"@ + spec_norm(currency@) + "/"@ + indicator@,
            ),
    {
        let mut path = String::from_str("/announcements/");
        let normed = norm(currency);
        path.append(normed.as_str());
        path.append("/");
        path.append(indicator);
        self.url(path.as_str())
    }

    /// The release calendar of a currency.
    pub fn calendar(&self, currency: &str) -> (r: String)
        ensures
            r@ == self.spec_request("/calendar/"@ + spec_norm(currency@)),
    {
        self.url_of_currency("/calendar/", currency)
    }

    /// The predictions of an indicator of a currency.
    pub fn predictions(&self, currency: &str, indicator: &str) -> (r: String)
        ensures
            r@ == self.spec_request("/predictions/"@ + spec_norm(currency@) + "/"@ + indicator@),
    {
        let mut path = String::from_str("/predictions/");
        let normed = norm(currency);
        path.append(normed.as_str());
        path.append("/");
        path.append(indicator);
        self.url(path.as_str())
    }

    /// The exchange rate of a pair of currencies.
    pub fn forex(&self, base: &str, quote: &str) -> (r: String)
        ensures
            r@ == self.spec_request(
                "/forex/"@ + spec_norm(base@) + "/"@ + spec_norm(quote@),
            ),
    {
        let mut path = String::from_str("/forex/");
        let normed_base = norm(base);
        path.append(normed_base.as_str());
        path.append("/");
        let normed_quote = norm(quote);
        path.append(normed_quote.as_str());
        self.url(path.as_str())
    }

    /// The commitments of traders of a currency.
    pub fn cot(&self, currency: &str) -> (r: String)
        ensures
            r@ == self.spec_request("/cot/"@ + spec_norm(currency@)),
    {
        self.url_of_currency("/cot/", currency)
    }

    /// The latest commodity prices.
    pub fn commodities_latest(&self) -> (r: String)
        ensures
            r@ == self.spec_request("/commodities/latest"@),
    {
        self.url("/commodities/latest")
    }

    /// The prices of a commodity.
    pub fn commodity(&self, indicator: &str) -> (r: String)
        ensures
            r@ == self.spec_request("/commodities/"@ + indicator@),
    {
        let mut path = String::from_str("/commodities/");
        path.append(indicator);
        self.url(path.as_str())
    }

    /// The yield curves of a currency.
    pub fn curves(&self, currency: &str) -> (r: String)
        ensures
            r@ == self.spec_request("/curves/"@ + spec_norm(currency@)),
    {
        self.url_of_currency("/curves/", currency)
    }

    /// The curve proxies of a currency.
    pub fn curve_proxies(&self, currency: &str) -> (r: String)
        ensures
            r@ == self.spec_request("/curve_proxies/"@ + spec_norm(currency@)),
    {
        self.url_of_currency("/curve_proxies/", currency)
    }

    /// The forward curves of a currency.
    pub fn forward_curves(&self, currency: &str) -> (r: String)
        ensures
            r@ == self.spec_request("/forward_curves/"@ + spec_norm(currency@)),
    {
        self.url_of_currency("/forward_curves/", currency)
    }

    /// The trading sessions of the markets.
    pub fn market_sessions(&self) -> (r: String)
        ensures
            r@ == self.spec_request("/market_sessions"@),
    {
        self.url("/market_sessions")
    }

    /// The risk sentiment.
    pub fn risk_sentiment(&self) -> (r: String)
        ensures
            r@ == self.spec_request("/risk_sentiment"@),
    {
        self.url("/risk_sentiment")
    }

    /// The news of a currency.
    pub fn news(&self, currency: &str) -> (r: String)
        ensures
            r@ == self.spec_request("/news/"@ + spec_norm(currency@)),
    {
        self.url_of_currency("/news/", currency)
    }

    /// The press releases of a currency.
    pub fn press_releases(&self, currency: &str) -> (r: String)
        ensures
            r@ == self.spec_request("/press-releases/"@ + spec_norm(currency@)),
    {
        self.url_of_currency("/press-releases/", currency)
    }

    /// The central bankers of a currency.
    pub fn central_bankers(&self, currency: &str) -> (r: String)
        ensures
            r@ == self.spec_request("/central_bankers/"@ + spec_norm(currency@)),
    {
        self.url_of_currency("/central_bankers/", currency)
    }
}


/// The percent-encoding of any bytes is ASCII text.
pub proof fn encoding_is_ascii(bytes: Seq<u8>)
    ensures
        forall|i: int| 0 <= i < spec_encode(bytes).len() ==> (#[trigger] spec_encode(bytes)[i]) as int
            <= 0x7f,
    decreases bytes.len(),
{
    if bytes.len() > 0 {
        encoding_is_ascii(bytes.drop_last());
        let head = spec_encode(bytes.drop_last());
        let tail = encoded_byte(bytes.last());
        let b = bytes.last();
        assert(b / 16 < 16) by (nonlinear_arith)
            requires
                b < 256,
        ;
        assert forall|i: int| 0 <= i < spec_encode(bytes).len() implies (#[trigger] spec_encode(
            bytes,
        )[i]) as int <= 0x7f by {
            if i >= head.len() {
                assert(spec_encode(bytes)[i] == tail[i - head.len()]);
            } else {
                assert(spec_encode(bytes)[i] == head[i]);
            }
        }
    }
}

/// Percent-encoding leaves text of unreserved bytes as it is.
pub proof fn encoding_keeps_unreserved_text(bytes: Seq<u8>)
    requires
        forall|i: int| 0 <= i < bytes.len() ==> is_unreserved(#[trigger] bytes[i]),
    ensures
        spec_encode(bytes) == bytes.map_values(|b: u8| b as char),
    decreases bytes.len(),
{
    if bytes.len() > 0 {
        let init = bytes.drop_last();
        assert forall|i: int| 0 <= i < init.len() implies is_unreserved(#[trigger] init[i]) by {
            assert(init[i] == bytes[i]);
        }
        encoding_keeps_unreserved_text(init);
        assert(bytes.map_values(|b: u8| b as char) =~= init.map_values(|b: u8| b as char).push(
            bytes.last() as char,
        ));
        assert(is_unreserved(bytes[bytes.len() - 1]));
    }
}


/// Whether the character is a hexadecimal digit, in upper or lower case.
pub open spec fn is_hex_digit(c: char) -> bool {
    ||| '0' <= c <= '9'
    ||| 'A' <= c <= 'F'
    ||| 'a' <= c <= 'f'
}

/// The value of a hexadecimal digit.
pub open spec fn hex_value(c: char) -> int {
    if '0' <= c <= '9' {
        c as int - 48
    } else if 'A' <= c <= 'F' {
        c as int - 55
    } else {
        c as int - 87
    }
}

/// Percent-decoding: `%` followed by two hexadecimal digits stands for the byte of that
/// value; any other character stands for its own code, taken as a byte.
pub open spec fn spec_decode(text: Seq<char>) -> Seq<u8>
    decreases text.len(),
{
    if text.len() == 0 {
        Seq::empty()
    } else if text.len() >= 3 && text[0] == '%' && is_hex_digit(text[1]) && is_hex_digit(text[2]) {
        seq![(hex_value(text[1]) * 16 + hex_value(text[2])) as u8] + spec_decode(
            text.subrange(3, text.len() as int),
        )
    } else {
        seq![text[0] as u8] + spec_decode(text.subrange(1, text.len() as int))
    }
}

/// The encoding of bytes begins with the encoding of their first byte.
proof fn lemma_encode_first(bytes: Seq<u8>)
    requires
        bytes.len() > 0,
    ensures
        spec_encode(bytes) == encoded_byte(bytes[0]) + spec_encode(bytes.subrange(1, bytes.len() as int)),
    decreases bytes.len(),
{
    let rest = bytes.subrange(1, bytes.len() as int);
    if bytes.len() == 1 {
        let none = Seq::<u8>::empty();
        assert(bytes.drop_last() =~= none);
        assert(rest =~= none);
        assert(spec_encode(none) == Seq::<char>::empty());
        assert(bytes.last() == bytes[0]);
        assert(spec_encode(bytes) == spec_encode(none) + encoded_byte(bytes[0]));
        assert(spec_encode(bytes) =~= encoded_byte(bytes[0]) + spec_encode(rest));
    } else {
        let init = bytes.drop_last();
        lemma_encode_first(init);
        assert(init.subrange(1, init.len() as int) =~= rest.drop_last());
        assert(rest.last() == bytes.last());
        assert(spec_encode(rest) == spec_encode(rest.drop_last()) + encoded_byte(rest.last()));
        assert(spec_encode(bytes) =~= encoded_byte(bytes[0]) + spec_encode(rest));
    }
}

/// Decoding the encoding of one byte followed by more text gives the byte back first.
proof fn lemma_decode_encoded_byte(b: u8, rest: Seq<char>)
    ensures
        spec_decode(encoded_byte(b) + rest) == seq![b] + spec_decode(rest),
{
    let text = encoded_byte(b) + rest;
    if is_unreserved(b) {
        assert(text[0] == b as char);
        assert(text.subrange(1, text.len() as int) =~= rest);
        assert((b as char) as u8 == b);
    } else {
        let high = (b / 16) as int;
        let low = (b % 16) as int;
        assert(high < 16 && low < 16) by (nonlinear_arith)
            requires
                b < 256,
                high == b / 16,
                low == b % 16,
        ;
        assert(high * 16 + low == b) by (nonlinear_arith)
            requires
                high == b / 16,
                low == b % 16,
        ;
        assert(text[0] == '%');
        assert(text[1] == hex_char(high));
        assert(text[2] == hex_char(low));
        assert(is_hex_digit(hex_char(high)) && hex_value(hex_char(high)) == high);
        assert(is_hex_digit(hex_char(low)) && hex_value(hex_char(low)) == low);
        assert(text.subrange(3, text.len() as int) =~= rest);
    }
}

/// Percent-decoding the percent-encoding of any bytes gives them back.
pub proof fn decoding_inverts_encoding(bytes: Seq<u8>)
    ensures
        spec_decode(spec_encode(bytes)) == bytes,
    decreases bytes.len(),
{
    if bytes.len() > 0 {
        let rest = bytes.subrange(1, bytes.len() as int);
        lemma_encode_first(bytes);
        lemma_decode_encoded_byte(bytes[0], spec_encode(rest));
        decoding_inverts_encoding(rest);
        assert(seq![bytes[0]] + rest =~= bytes);
    } else {
        assert(spec_encode(bytes) =~= Seq::<char>::empty());
        assert(bytes =~= Seq::<u8>::empty());
    }
}

} // verus!
