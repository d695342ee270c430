//! The RadioBrowser directory: its record shapes, how a directory record
//! becomes a station, and the requests (URL and query) the client sends.
//! The HTTP exchange itself is made by the application.

use vstd::prelude::*;
use vstd::string::StringSliceAdditionalSpecFns;

use crate::state::Station;
use crate::text::{chars_of, chars_slice, dec_chars, dec_string, push_str, string_from_chars, trim, trim_chars};

verus! {

/// A station record as RadioBrowser sends it.
pub struct RbStation {
    pub stationuuid: String,
    pub name: String,
    pub url_resolved: String,
    pub codec: String,
    pub bitrate: u32,
    pub countrycode: String,
    pub tags: String,
    pub favicon: String,
}

/// A tag with the number of stations carrying it.
pub struct Tag {
    pub name: String,
    pub stationcount: u32,
}

/// A country with the number of its stations.
pub struct Country {
    pub name: String,
    pub iso_3166_1: String,
    pub stationcount: u32,
}

/// Index of the end of the comma-separated segment that starts at `start`.
pub open spec fn comma_end(t: Seq<char>, start: int) -> int
    decreases t.len() - start,
{
    if start >= t.len() {
        t.len() as int
    } else if t[start] == ',' {
        start
    } else {
        comma_end(t, start + 1)
    }
}

pub proof fn lemma_comma_end(t: Seq<char>, start: int)
    requires
        0 <= start <= t.len(),
    ensures
        start <= comma_end(t, start) <= t.len(),
        comma_end(t, start) < t.len() ==> t[comma_end(t, start)] == ',',
    decreases t.len() - start,
{
    if start < t.len() && t[start] != ',' {
        lemma_comma_end(t, start + 1);
    }
}

/// The tags in the comma-separated segments from `start` on: each segment
/// trimmed, empty ones dropped.
pub open spec fn tags_from(t: Seq<char>, start: int) -> Seq<Seq<char>>
    decreases t.len() + 1 - start,
{
    if start < 0 || start > t.len() {
        Seq::empty()
    } else {
        let e = comma_end(t, start);
        let seg = trim(t.subrange(start, e));
        let here: Seq<Seq<char>> = if seg.len() > 0 {
            seq![seg]
        } else {
            Seq::empty()
        };
        if e >= t.len() {
            here
        } else {
            proof {
                lemma_comma_end(t, start);
            }
            here + tags_from(t, e + 1)
        }
    }
}

/// The tags of a RadioBrowser tag list: split at `,`, trimmed, empty ones
/// dropped.
pub open spec fn parse_tags_spec(t: Seq<char>) -> Seq<Seq<char>> {
    tags_from(t, 0)
}

proof fn lemma_tags_from_nonempty(t: Seq<char>, start: int)
    ensures
        forall|i: int| 0 <= i < tags_from(t, start).len() ==> #[trigger] tags_from(t, start)[i].len() > 0,
    decreases t.len() + 1 - start,
{
    if 0 <= start <= t.len() {
        lemma_comma_end(t, start);
        let e = comma_end(t, start);
        let seg = trim(t.subrange(start, e));
        let here: Seq<Seq<char>> = if seg.len() > 0 {
            seq![seg]
        } else {
            Seq::empty()
        };
        if e < t.len() {
            lemma_tags_from_nonempty(t, e + 1);
            let rest = tags_from(t, e + 1);
            assert(tags_from(t, start) == here + rest);
            assert forall|i: int| 0 <= i < tags_from(t, start).len() implies #[trigger] tags_from(
                t,
                start,
            )[i].len() > 0 by {
                if i >= here.len() {
                    assert(tags_from(t, start)[i] == rest[i - here.len()]);
                }
            }
        } else {
            assert(tags_from(t, start) == here);
        }
    }
}

/// No parsed tag is empty.
pub proof fn parsed_tags_nonempty(t: Seq<char>)
    ensures
        forall|i: int| 0 <= i < parse_tags_spec(t).len() ==> #[trigger] parse_tags_spec(t)[i].len() > 0,
{
    lemma_tags_from_nonempty(t, 0);
}

proof fn lemma_comma_end_shift(p: Seq<char>, c: Seq<char>, k: int)
    requires
        0 <= k <= c.len(),
    ensures
        comma_end(p + c, p.len() + k) == p.len() + comma_end(c, k),
    decreases c.len() - k,
{
    if k < c.len() {
        assert((p + c)[p.len() + k] == c[k]);
        if c[k] != ',' {
            lemma_comma_end_shift(p, c, k + 1);
        }
    }
}

proof fn lemma_comma_end_concat(a: Seq<char>, c: Seq<char>, start: int)
    requires
        0 <= start <= a.len(),
    ensures
        comma_end(a + c, start) == if comma_end(a, start) < a.len() {
            comma_end(a, start)
        } else {
            a.len() + comma_end(c, 0)
        },
    decreases a.len() - start,
{
    if start == a.len() {
        lemma_comma_end_shift(a, c, 0);
    } else {
        assert((a + c)[start] == a[start]);
        if a[start] != ',' {
            lemma_comma_end_concat(a, c, start + 1);
        }
    }
}

proof fn lemma_comma_end_none(t: Seq<char>, k: int)
    requires
        0 <= k <= t.len(),
        forall|i: int| 0 <= i < t.len() ==> t[i] != ',',
    ensures
        comma_end(t, k) == t.len(),
    decreases t.len() - k,
{
    if k < t.len() {
        lemma_comma_end_none(t, k + 1);
    }
}

proof fn lemma_tags_from_shift(p: Seq<char>, c: Seq<char>, k: int)
    requires
        0 <= k <= c.len(),
    ensures
        tags_from(p + c, p.len() + k) == tags_from(c, k),
    decreases c.len() + 1 - k,
{
    let t = p + c;
    lemma_comma_end_shift(p, c, k);
    lemma_comma_end(c, k);
    let e = comma_end(c, k);
    assert(t.subrange(p.len() + k, p.len() + e) =~= c.subrange(k, e));
    if e < c.len() {
        lemma_tags_from_shift(p, c, e + 1);
    }
}

proof fn lemma_tags_from_concat(a: Seq<char>, b: Seq<char>, start: int)
    requires
        0 <= start <= a.len(),
    ensures
        tags_from(a + (","@ + b), start) == tags_from(a, start) + tags_from(b, 0),
    decreases a.len() - start,
{
    reveal_strlit(",");
    let c = ","@ + b;
    let t = a + c;
    assert(c[0] == ',');
    lemma_comma_end_concat(a, c, start);
    lemma_comma_end(a, start);
    let e = comma_end(a, start);
    let seg = trim(a.subrange(start, e));
    let here: Seq<Seq<char>> = if seg.len() > 0 {
        seq![seg]
    } else {
        Seq::empty()
    };
    assert(t.subrange(start, e) =~= a.subrange(start, e));
    if e < a.len() {
        assert(comma_end(t, start) == e);
        lemma_tags_from_concat(a, b, e + 1);
        assert(tags_from(t, start) == here + tags_from(t, e + 1));
        assert(tags_from(a, start) == here + tags_from(a, e + 1));
        assert(here + (tags_from(a, e + 1) + tags_from(b, 0)) =~= here + tags_from(a, e + 1)
            + tags_from(b, 0));
    } else {
        assert(comma_end(t, start) == a.len());
        lemma_tags_from_shift(a, c, 1);
        lemma_tags_from_shift(","@, b, 0);
        assert(tags_from(t, start) == here + tags_from(t, a.len() + 1int));
        assert(tags_from(a, start) == here);
    }
}

/// Splitting a tag list at a comma: the tags of `a,b` are the tags of `a`
/// followed by the tags of `b` — no tag is lost, added or reordered.
pub proof fn parse_tags_split_law(a: Seq<char>, b: Seq<char>)
    ensures
        parse_tags_spec(a + ","@ + b) == parse_tags_spec(a) + parse_tags_spec(b),
{
    assert(a + ","@ + b =~= a + (","@ + b));
    lemma_tags_from_concat(a, b, 0);
}

/// A tag list without commas is one tag, trimmed; none when it is blank.
pub proof fn parse_tags_segment_law(t: Seq<char>)
    requires
        forall|i: int| 0 <= i < t.len() ==> t[i] != ',',
    ensures
        parse_tags_spec(t) == if trim(t).len() > 0 {
            seq![trim(t)]
        } else {
            Seq::<Seq<char>>::empty()
        },
{
    lemma_comma_end_none(t, 0);
    assert(t.subrange(0, t.len() as int) =~= t);
}

/// The characters of each string.
pub open spec fn strings_view(v: Seq<String>) -> Seq<Seq<char>> {
    v.map_values(|s: String| s@)
}

/// Splits a RadioBrowser tag list into tags.
pub fn parse_tags(tags: &str) -> (r: Vec<String>)
    ensures
        strings_view(r@) == parse_tags_spec(tags@),
{
    let t = chars_of(tags);
    let mut out: Vec<String> = Vec::new();
    let mut start: usize = 0;
    loop
        invariant
            start <= t@.len(),
            t@ == tags@,
            parse_tags_spec(tags@) == strings_view(out@) + tags_from(t@, start as int),
        decreases t@.len() - start,
    {
        let mut e = start;
        while e < t.len() && t[e] != ','
            invariant
                start <= e <= t@.len(),
                comma_end(t@, start as int) == comma_end(t@, e as int),
            decreases t@.len() - e,
        {
            e += 1;
        }
        assert(comma_end(t@, e as int) == e);
        let seg = chars_slice(&t, start, e);
        let trimmed = trim_chars(&seg);
        let ghost before = strings_view(out@);
        if trimmed.len() > 0 {
            out.push(string_from_chars(&trimmed));
            assert(strings_view(out@) =~= before.push(trimmed@));
        }
        if e >= t.len() {
            assert(strings_view(out@) + Seq::<Seq<char>>::empty() =~= strings_view(out@));
            if trimmed.len() > 0 {
                assert(before + seq![trimmed@] =~= before.push(trimmed@));
            } else {
                assert(before + Seq::<Seq<char>>::empty() =~= before);
            }
            return out;
        }
        proof {
            let rest = tags_from(t@, e + 1);
            if trimmed.len() > 0 {
                assert(before + (seq![trimmed@] + rest) =~= before.push(trimmed@) + rest);
            } else {
                assert(before + (Seq::<Seq<char>>::empty() + rest) =~= before + rest);
            }
        }
        start = e + 1;
    }
}

/// The station a RadioBrowser record describes.
pub fn map_station(s: RbStation) -> (st: Station)
    ensures
        st.id == s.stationuuid,
        st.name == s.name,
        st.url == s.url_resolved,
        st.codec == s.codec,
        st.bitrate == s.bitrate,
        st.country == s.countrycode,
        strings_view(st.tags@) == parse_tags_spec(s.tags@),
        st.favicon == s.favicon,
{
    let tags = parse_tags(s.tags.as_str());
    Station {
        id: s.stationuuid,
        name: s.name,
        url: s.url_resolved,
        codec: s.codec,
        bitrate: s.bitrate,
        country: s.countrycode,
        tags,
        favicon: s.favicon,
    }
}

/// Bytes that URL encoding leaves as they are: ASCII letters, digits and
/// `-`, `.`, `_`, `~`.
pub open spec fn is_unreserved(b: u8) -> bool {
    (48 <= b <= 57) || (65 <= b <= 90) || (97 <= b <= 122) || b == 45 || b == 46 || b == 95 || b
        == 126
}

/// The upper-case hexadecimal digit character for `d < 16`.
pub open spec fn upper_hex_char(d: nat) -> char {
    if d < 10 {
        (('0' as u32) + d) as char
    } else {
        (('A' as u32) + (d - 10)) as char
    }
}

/// Percent-encoding of `bytes`: unreserved bytes stay, every other byte
/// becomes `%` and two upper-case hexadecimal digits.
pub open spec fn url_encoded(bytes: Seq<u8>) -> Seq<char>
    decreases bytes.len(),
{
    if bytes.len() == 0 {
        Seq::empty()
    } else {
        let b = bytes.last();
        url_encoded(bytes.drop_last()) + if is_unreserved(b) {
            seq![b as char]
        } else {
            seq!['%', upper_hex_char((b / 16) as nat), upper_hex_char((b % 16) as nat)]
        }
    }
}

/// Calls `urlencoding::encode`, which percent-encodes every byte of the
/// UTF-8 text except ASCII letters, digits and `-`, `.`, `_`, `~`, with
/// upper-case hexadecimal digits.
#[verifier::external_body]
fn url_encode(s: &str) -> (r: String)
    ensures
        r@ == url_encoded(s.spec_bytes()),
{
    urlencoding::encode(s).into_owned()
}

/// A request to the RadioBrowser API: the URL and the query parameters.
pub struct RbRequest {
    pub url: String,
    pub query: Vec<(String, String)>,
}

/// The characters of each query parameter.
pub open spec fn pairs_view(v: Seq<(String, String)>) -> Seq<(Seq<char>, Seq<char>)> {
    v.map_values(|p: (String, String)| (p.0@, p.1@))
}

fn owned(s: &str) -> (r: String)
    ensures
        r@ == s@,
{
    let mut r = String::new();
    push_str(&mut r, s);
    r
}

fn push_pair(v: &mut Vec<(String, String)>, k: &str, val: &str)
    ensures
        pairs_view(final(v)@) == pairs_view(old(v)@).push((k@, val@)),
{
    let ghost before = pairs_view(v@);
    v.push((owned(k), owned(val)));
    assert(pairs_view(v@) =~= before.push((k@, val@)));
}

fn join_url(base: &str, path: &str) -> (r: String)
    ensures
        r@ == base@ + path@,
{
    let mut r = String::new();
    push_str(&mut r, base);
    push_str(&mut r, path);
    r
}

/// The query of a station search.
pub open spec fn search_query_spec(q: Seq<char>, country: Option<Seq<char>>, tag: Option<
    Seq<char>,
>, limit: nat) -> Seq<(Seq<char>, Seq<char>)> {
    let base = seq![
        ("name"@, q),
        ("limit"@, dec_chars(limit)),
        ("order"@, "clickcount"@),
        ("reverse"@, "true"@),
        ("hidebroken"@, "true"@),
    ];
    let with_country = match country {
        Some(c) => base.push(("countrycode"@, c)),
        None => base,
    };
    match tag {
        Some(t) => with_country.push(("tag"@, t)),
        None => with_country,
    }
}

/// The search query always starts with the name, the limit, the ordering by
/// clicks and the hiding of broken stations; it carries a `countrycode`
/// parameter exactly when a country is given and a `tag` parameter exactly
/// when a tag is given, each independently of the other; the country comes
/// right after the fixed part and the tag last.
pub proof fn search_query_law(
    q: Seq<char>,
    country: Option<Seq<char>>,
    tag: Option<Seq<char>>,
    limit: nat,
)
    ensures
        ({
            let r = search_query_spec(q, country, tag, limit);
            &&& r.len() == 5 + (if country is Some { 1int } else { 0 }) + (if tag is Some { 1int } else { 0 })
            &&& r[0] == ("name"@, q)
            &&& r[1] == ("limit"@, dec_chars(limit))
            &&& r[2] == ("order"@, "clickcount"@)
            &&& r[3] == ("reverse"@, "true"@)
            &&& r[4] == ("hidebroken"@, "true"@)
            &&& (country matches Some(c) ==> r.contains(("countrycode"@, c)) && r[5] == ("countrycode"@, c))
            &&& (country is None ==> forall|i: int| 0 <= i < r.len() ==> (#[trigger] r[i]).0 != "countrycode"@)
            &&& (tag matches Some(t) ==> r.contains(("tag"@, t)) && r[r.len() - 1] == ("tag"@, t))
            &&& (tag is None ==> forall|i: int| 0 <= i < r.len() ==> (#[trigger] r[i]).0 != "tag"@)
        }),
{
    reveal_strlit("name");
    reveal_strlit("limit");
    reveal_strlit("order");
    reveal_strlit("reverse");
    reveal_strlit("hidebroken");
    reveal_strlit("countrycode");
    reveal_strlit("tag");
    let r = search_query_spec(q, country, tag, limit);
    let base = seq![
        ("name"@, q),
        ("limit"@, dec_chars(limit)),
        ("order"@, "clickcount"@),
        ("reverse"@, "true"@),
        ("hidebroken"@, "true"@),
    ];
    let wc = match country {
        Some(c) => base.push(("countrycode"@, c)),
        None => base,
    };
    assert(r == match tag {
        Some(t) => wc.push(("tag"@, t)),
        None => wc,
    });
    if let Some(c) = country {
        assert(r[5] == ("countrycode"@, c));
    }
    if let Some(t) = tag {
        assert(r[r.len() - 1] == ("tag"@, t));
    }
    assert forall|i: int| 0 <= i < r.len() && country is None implies (#[trigger] r[i]).0
        != "countrycode"@ by {
        if i < 5 {
            assert(r[i] == base[i]);
        }
        assert(r[i].0.len() != "countrycode"@.len());
    }
    assert forall|i: int| 0 <= i < r.len() && tag is None implies (#[trigger] r[i]).0 != "tag"@ by {
        if i < 5 {
            assert(r[i] == base[i]);
        }
        assert(r[i].0.len() != "tag"@.len());
    }
}

/// The characters of an optional text.
pub open spec fn opt_str_view(o: Option<&str>) -> Option<Seq<char>> {
    match o {
        Some(s) => Some(s@),
        None => None,
    }
}

/// The request of a full-text station search, most clicked first.
pub fn search_request(base_url: &str, q: &str, country: Option<&str>, tag: Option<&str>, limit: usize) -> (r:
    RbRequest)
    ensures
        r.url@ == base_url@ + "/stations/search"@,
        pairs_view(r.query@) == search_query_spec(
            q@,
            opt_str_view(country),
            opt_str_view(tag),
            limit as nat,
        ),
{
    let mut query: Vec<(String, String)> = Vec::new();
    let lim = dec_string(limit as u64);
    push_pair(&mut query, "name", q);
    push_pair(&mut query, "limit", lim.as_str());
    push_pair(&mut query, "order", "clickcount");
    push_pair(&mut query, "reverse", "true");
    push_pair(&mut query, "hidebroken", "true");
    if let Some(c) = country {
        push_pair(&mut query, "countrycode", c);
    }
    if let Some(t) = tag {
        push_pair(&mut query, "tag", t);
    }
    assert(pairs_view(query@) =~= search_query_spec(
        q@,
        opt_str_view(country),
        opt_str_view(tag),
        limit as nat,
    ));
    RbRequest { url: join_url(base_url, "/stations/search"), query }
}

/// The request of the most clicked stations.
pub fn top_request(base_url: &str, limit: usize) -> (r: RbRequest)
    ensures
        r.url@ == base_url@ + "/stations/topclick/"@ + dec_chars(limit as nat),
        pairs_view(r.query@) == seq![("hidebroken"@, "true"@)],
{
    let mut query: Vec<(String, String)> = Vec::new();
    push_pair(&mut query, "hidebroken", "true");
    let mut url = join_url(base_url, "/stations/topclick/");
    let lim = dec_string(limit as u64);
    push_str(&mut url, lim.as_str());
    assert(pairs_view(query@) =~= seq![("hidebroken"@, "true"@)]);
    RbRequest { url, query }
}

/// The request of the tags with most stations.
pub fn tags_request(base_url: &str, limit: usize) -> (r: RbRequest)
    ensures
        r.url@ == base_url@ + "/tags"@,
        pairs_view(r.query@) == seq![
            ("order"@, "stationcount"@),
            ("reverse"@, "true"@),
            ("limit"@, dec_chars(limit as nat)),
        ],
{
    let mut query: Vec<(String, String)> = Vec::new();
    let lim = dec_string(limit as u64);
    push_pair(&mut query, "order", "stationcount");
    push_pair(&mut query, "reverse", "true");
    push_pair(&mut query, "limit", lim.as_str());
    assert(pairs_view(query@) =~= seq![
        ("order"@, "stationcount"@),
        ("reverse"@, "true"@),
        ("limit"@, dec_chars(limit as nat)),
    ]);
    RbRequest { url: join_url(base_url, "/tags"), query }
}

/// The request of all countries, most stations first.
pub fn countries_request(base_url: &str) -> (r: RbRequest)
    ensures
        r.url@ == base_url@ + "/countries"@,
        pairs_view(r.query@) == seq![("order"@, "stationcount"@), ("reverse"@, "true"@)],
{
    let mut query: Vec<(String, String)> = Vec::new();
    push_pair(&mut query, "order", "stationcount");
    push_pair(&mut query, "reverse", "true");
    assert(pairs_view(query@) =~= seq![("order"@, "stationcount"@), ("reverse"@, "true"@)]);
    RbRequest { url: join_url(base_url, "/countries"), query }
}

/// The query of a filtered station listing.
pub open spec fn listing_query_spec(limit: nat) -> Seq<(Seq<char>, Seq<char>)> {
    seq![
        ("limit"@, dec_chars(limit)),
        ("order"@, "clickcount"@),
        ("reverse"@, "true"@),
        ("hidebroken"@, "true"@),
    ]
}

fn listing_query(limit: usize) -> (q: Vec<(String, String)>)
    ensures
        pairs_view(q@) == listing_query_spec(limit as nat),
{
    let mut query: Vec<(String, String)> = Vec::new();
    let lim = dec_string(limit as u64);
    push_pair(&mut query, "limit", lim.as_str());
    push_pair(&mut query, "order", "clickcount");
    push_pair(&mut query, "reverse", "true");
    push_pair(&mut query, "hidebroken", "true");
    assert(pairs_view(query@) =~= listing_query_spec(limit as nat));
    query
}

/// The request of the stations carrying a tag; the tag is URL-encoded into
/// the path.
pub fn stations_by_tag_request(base_url: &str, tag: &str, limit: usize) -> (r: RbRequest)
    ensures
        r.url@ == base_url@ + "/stations/bytag/"@ + url_encoded(tag.spec_bytes()),
        pairs_view(r.query@) == listing_query_spec(limit as nat),
{
    let mut url = join_url(base_url, "/stations/bytag/");
    let enc = url_encode(tag);
    push_str(&mut url, enc.as_str());
    RbRequest { url, query: listing_query(limit) }
}

/// The request of the stations of a country, by exact ISO code.
pub fn stations_by_country_request(base_url: &str, country_code: &str, limit: usize) -> (r:
    RbRequest)
    ensures
        r.url@ == base_url@ + "/stations/bycountrycodeexact/"@ + country_code@,
        pairs_view(r.query@) == listing_query_spec(limit as nat),
{
    let mut url = join_url(base_url, "/stations/bycountrycodeexact/");
    push_str(&mut url, country_code);
    RbRequest { url, query: listing_query(limit) }
}

/// The API base URL: the configured one when set; otherwise the address
/// that `all.api.radio-browser.info` resolved to; otherwise the well-known
/// server.
pub open spec fn base_url_spec(configured: Seq<char>, resolved_ip: Option<Seq<char>>) -> Seq<char> {
    if configured.len() > 0 {
        configured
    } else {
        match resolved_ip {
            Some(ip) => "https://"@ + ip + "/json"@,
            None => "https://de1.api.radio-browser.info/json"@,
        }
    }
}

/// Chooses the API base URL (see `base_url_spec`).
pub fn choose_base_url(configured: &str, resolved_ip: Option<&str>) -> (r: String)
    ensures
        r@ == base_url_spec(configured@, opt_str_view(resolved_ip)),
{
    if !configured.is_empty() {
        return owned(configured);
    }
    match resolved_ip {
        Some(ip) => {
            let mut r = String::new();
            push_str(&mut r, "https://");
            push_str(&mut r, ip);
            push_str(&mut r, "/json");
            r
        },
        None => owned("https://de1.api.radio-browser.info/json"),
    }
}

} // verus!
