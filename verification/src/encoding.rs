//! Percent-encoding, form data and URLs.

use vstd::prelude::*;

verus! {

/// Whether a byte is written as it is in percent-encoded text: a letter, a digit, `-`, `.`, `_`
/// or `~`.
pub open spec fn is_unreserved(byte: u8) -> bool {
    0x30 <= byte <= 0x39 || 0x41 <= byte <= 0x5a || 0x61 <= byte <= 0x7a || byte == 0x2d || byte
        == 0x2e || byte == 0x5f || byte == 0x7e
}

/// The upper-case hexadecimal digit, as a byte, for a value below sixteen.
pub open spec fn upper_hex(value: int) -> int {
    if value < 10 {
        48 + value
    } else {
        55 + value
    }
}

/// The percent-encoded form of bytes.
pub open spec fn percent_encoded_bytes(bytes: Seq<u8>) -> Seq<char>
    decreases bytes.len(),
{
    if bytes.len() == 0 {
        Seq::<char>::empty()
    } else {
        let first = if is_unreserved(bytes[0]) {
            seq![bytes[0] as char]
        } else {
            seq!['%', upper_hex(bytes[0] as int / 16) as char, upper_hex(bytes[0] as int % 16) as char]
        };
        first + percent_encoded_bytes(bytes.skip(1))
    }
}

/// The percent-encoded form of a text.
pub open spec fn percent_encoded(text: Seq<char>) -> Seq<char> {
    percent_encoded_bytes(vstd::utf8::encode_utf8(text))
}

/// The value of a hexadecimal digit given as a byte.
pub open spec fn hex_value(byte: u8) -> Option<int> {
    if 0x30 <= byte <= 0x39 {
        Some(byte - 0x30)
    } else if 0x41 <= byte <= 0x46 {
        Some(byte - 0x41 + 10)
    } else if 0x61 <= byte <= 0x66 {
        Some(byte - 0x61 + 10)
    } else {
        None
    }
}

/// The bytes that percent-encoded bytes stand for. A percent sign without two hexadecimal digits
/// stands for itself.
pub open spec fn percent_decoded_bytes(bytes: Seq<u8>) -> Seq<u8>
    decreases bytes.len(),
{
    if bytes.len() == 0 {
        Seq::<u8>::empty()
    } else if bytes[0] == 0x25 && bytes.len() >= 3 && hex_value(bytes[1]) is Some && hex_value(
        bytes[2],
    ) is Some {
        seq![(16 * hex_value(bytes[1])->0 + hex_value(bytes[2])->0) as u8] + percent_decoded_bytes(
            bytes.skip(3),
        )
    } else {
        seq![bytes[0]] + percent_decoded_bytes(bytes.skip(1))
    }
}

/// The text that percent-encoded text stands for, where the bytes are those of a text.
pub open spec fn percent_decoded(text: Seq<char>) -> Option<Seq<char>> {
    let bytes = percent_decoded_bytes(vstd::utf8::encode_utf8(text));
    if vstd::utf8::valid_utf8(bytes) {
        Some(vstd::utf8::decode_utf8(bytes))
    } else {
        None
    }
}

/// What `urlencoding::decode` says of a text that it cannot decode.
pub uninterp spec fn decode_failure(text: Seq<char>) -> Seq<char>;

/// `urlencoding::decode`: percent escapes are replaced by their bytes, and there is an error, here
/// in its own words, where the bytes are not UTF-8.
#[verifier::external_body]
pub(crate) fn decode_percent(text: &str) -> (decoded: Result<String, String>)
    ensures
        match percent_decoded(text@) {
            Some(plain) => decoded matches Ok(found) && found@ == plain,
            None => decoded matches Err(message) && message@ == decode_failure(text@),
        },
{
    match urlencoding::decode(text) {
        Ok(decoded) => Ok(decoded.into_owned()),
        Err(error) => Err(error.to_string()),
    }
}

/// `urlencoding::encode`: every byte but letters, digits, `-`, `.`, `_` and `~` is escaped.
#[verifier::external_body]
pub(crate) fn encode_percent(text: &str) -> (encoded: String)
    ensures
        encoded@ == percent_encoded(text@),
{
    urlencoding::encode(text).into_owned()
}

/// What `url::form_urlencoded::parse` reads from a query: names and values in order.
pub uninterp spec fn form_pairs(query: Seq<char>) -> Seq<(Seq<char>, Seq<char>)>;

/// The texts held by a list of pairs of strings.
pub open spec fn pair_texts(pairs: Seq<(String, String)>) -> Seq<(Seq<char>, Seq<char>)> {
    Seq::new(pairs.len(), |i: int| (pairs[i].0@, pairs[i].1@))
}

/// `url::form_urlencoded::parse` on the bytes of a query, as owned pairs.
#[verifier::external_body]
pub(crate) fn parse_form(query: &str) -> (pairs: Vec<(String, String)>)
    ensures
        pair_texts(pairs@) == form_pairs(query@),
{
    url::form_urlencoded::parse(query.as_bytes()).into_owned().collect()
}

/// The host in a URL.
#[derive(Debug, PartialEq, Eq)]
pub struct UrlHost {
    pub text: String,
    pub is_ipv6: bool,
}

/// The parts of a URL that name a place on another machine.
#[derive(Debug, PartialEq, Eq)]
pub struct ParsedUrl {
    pub text: String,
    pub host: Option<UrlHost>,
    pub username: String,
    pub password: Option<String>,
    pub port: Option<u16>,
    pub path: String,
}

#[verifier::ext_equal]
pub struct UrlModel {
    pub text: Seq<char>,
    pub host: Option<(Seq<char>, bool)>,
    pub username: Seq<char>,
    pub password: Option<Seq<char>>,
    pub port: Option<u16>,
    pub path: Seq<char>,
}

impl View for ParsedUrl {
    type V = UrlModel;

    open spec fn view(&self) -> UrlModel {
        UrlModel {
            text: self.text@,
            host: match self.host {
                Some(host) => Some((host.text@, host.is_ipv6)),
                None => None,
            },
            username: self.username@,
            password: crate::text::optional_text(self.password),
            port: self.port,
            path: self.path@,
        }
    }
}

/// What `url::Url::parse` makes of a text: its normal form and its parts, or its error in words.
pub uninterp spec fn parsed_url(text: Seq<char>) -> Result<UrlModel, Seq<char>>;

/// `url::Url::parse`, with the parts read by `as_str`, `host`, `username`, `password`, `port` and
/// `path`, or with the error in its own words.
#[verifier::external_body]
pub(crate) fn parse_url(text: &str) -> (parsed: Result<ParsedUrl, String>)
    ensures
        match parsed {
            Ok(url) => parsed_url(text@) == Ok::<UrlModel, Seq<char>>(url@),
            Err(message) => parsed_url(text@) == Err::<UrlModel, Seq<char>>(message@),
        },
{
    let url = url::Url::parse(text).map_err(|error| error.to_string())?;
    Ok(ParsedUrl {
        text: url.as_str().to_string(),
        host: match url.host() {
            Some(url::Host::Ipv6(host)) => Some(UrlHost { text: host.to_string(), is_ipv6: true }),
            Some(url::Host::Ipv4(host)) => Some(UrlHost { text: host.to_string(), is_ipv6: false }),
            Some(url::Host::Domain(host)) => Some(UrlHost { text: host.to_string(), is_ipv6: false }),
            None => None,
        },
        username: url.username().to_string(),
        password: url.password().map(|password| password.to_string()),
        port: url.port(),
        path: url.path().to_string(),
    })
}

/// The value of the first pair with a name.
pub open spec fn first_value(pairs: Seq<(Seq<char>, Seq<char>)>, name: Seq<char>) -> Option<
    Seq<char>,
>
    decreases pairs.len(),
{
    if pairs.len() == 0 {
        None
    } else if pairs[0].0 == name {
        Some(pairs[0].1)
    } else {
        first_value(pairs.skip(1), name)
    }
}

/// The value of the first pair with a name.
pub fn find_value(pairs: &Vec<(String, String)>, name: &str) -> (value: Option<String>)
    ensures
        crate::text::optional_text(value) == first_value(pair_texts(pairs@), name@),
{
    let wanted = name.to_string();
    let ghost all = pair_texts(pairs@);
    let mut i: usize = 0;
    assert(all.skip(0) =~= all);
    while i < pairs.len()
        invariant
            i <= pairs@.len(),
            all == pair_texts(pairs@),
            wanted@ == name@,
            first_value(all, name@) == first_value(all.skip(i as int), name@),
        decreases pairs@.len() - i,
    {
        assert(all.skip(i as int)[0] == (pairs@[i as int].0@, pairs@[i as int].1@));
        assert(all.skip(i as int).skip(1) =~= all.skip(i + 1));
        if pairs[i].0 == wanted {
            return Some(pairs[i].1.clone());
        }
        i += 1;
    }
    None
}

/// The value of a parameter in a query.
pub fn query_value(query: &str, name: &str) -> (value: Option<String>)
    ensures
        crate::text::optional_text(value) == first_value(form_pairs(query@), name@),
{
    let pairs = parse_form(query);
    find_value(&pairs, name)
}

proof fn lemma_encoded_is_ascii(bytes: Seq<u8>)
    ensures
        vstd::utf8::is_ascii_chars(percent_encoded_bytes(bytes)),
    decreases bytes.len(),
{
    if bytes.len() > 0 {
        lemma_encoded_is_ascii(bytes.skip(1));
        let rest = percent_encoded_bytes(bytes.skip(1));
        let all = percent_encoded_bytes(bytes);
        let width: int = all.len() - rest.len();
        assert forall|i: int| 0 <= i < all.len() implies '\0' <= #[trigger] all[i] <= '\u{7f}' by {
            if i >= width {
                assert(all[i] == rest[i - width]);
            }
        }
    }
}

proof fn lemma_decoding_encoded(bytes: Seq<u8>)
    ensures
        ({
            let encoded = percent_encoded_bytes(bytes);
            percent_decoded_bytes(Seq::new(encoded.len(), |i: int| encoded[i] as u8)) == bytes
        }),
    decreases bytes.len(),
{
    let encoded = percent_encoded_bytes(bytes);
    let ascii = Seq::new(encoded.len(), |i: int| encoded[i] as u8);
    if bytes.len() == 0 {
        assert(ascii =~= Seq::<u8>::empty());
        assert(bytes =~= Seq::<u8>::empty());
    } else {
        let rest = bytes.skip(1);
        lemma_decoding_encoded(rest);
        let encoded_rest = percent_encoded_bytes(rest);
        let ascii_rest = Seq::new(encoded_rest.len(), |i: int| encoded_rest[i] as u8);
        let first = bytes[0];
        if is_unreserved(first) {
            assert(encoded[0] == first as char);
            assert(ascii[0] == first);
            assert(ascii.skip(1) =~= ascii_rest);
            assert(first != 0x25);
            assert(seq![first] + rest =~= bytes);
        } else {
            let high = first as int / 16;
            let low = first as int % 16;
            assert(encoded[0] == '%');
            assert(encoded[1] == upper_hex(high) as char);
            assert(encoded[2] == upper_hex(low) as char);
            assert(ascii[0] == 0x25);
            assert(ascii[1] == upper_hex(high));
            assert(ascii[2] == upper_hex(low));
            assert(hex_value(ascii[1]) == Some(high));
            assert(hex_value(ascii[2]) == Some(low));
            assert(ascii.skip(3) =~= ascii_rest);
            assert((16 * high + low) as u8 == first);
            assert(seq![first] + rest =~= bytes);
        }
    }
}

/// Decoding undoes encoding, for every text.
pub proof fn law_decoding_undoes_encoding(text: Seq<char>)
    ensures
        percent_decoded(percent_encoded(text)) == Some(text),
{
    let bytes = vstd::utf8::encode_utf8(text);
    let encoded = percent_encoded(text);
    lemma_encoded_is_ascii(bytes);
    lemma_decoding_encoded(bytes);
    vstd::utf8::is_ascii_chars_encode_utf8(encoded);
    assert(vstd::utf8::encode_utf8(encoded) =~= Seq::new(
        encoded.len(),
        |i: int| encoded[i] as u8,
    ));
    vstd::utf8::encode_utf8_valid_utf8(text);
    vstd::utf8::encode_utf8_decode_utf8(text);
}

} // verus!
