//! The station's per-segment metadata tag: its grammar, the decoded
//! record, and the rules that turn the record into a content kind.
//!
//! A tag reads
//! `[offset=N,]title="..",artist="..",url="song_spot=\"X\" MediaBaseId=\"N\" itunesTrackId=\"N\"
//! amgTrackId=\"N\" amgArtistId=\"N\" TAID=\"N\" TPID=\"N\" cartcutId=\"N\" amgArtworkURL=\"..\"
//! length=\"HH:MM:SS\" unsID=\"N\" spotInstanceId=\"..\""` (on one line). Each field ends
//! at the first occurrence of the fixed text that follows it. The song spot
//! code is one character: a Unicode letter or digit, or `_`.
use crate::text::{
    chars_of, contains_spec, decimal_i64, digit_value, find_from, find_from_spec,
    is_digit, occurs_at, occurs_at_exec, parse_i64, slice_chars, string_of,
};
use vstd::prelude::*;

verus! {

/// Why a segment's metadata yields no decision.
#[derive(Debug, Clone, Copy, PartialEq, Eq, Structural)]
pub enum ParseError {
    /// The segment carries no metadata text.
    NoMetadata,
    /// The text does not follow the tag grammar and is no advertisement marker.
    Malformed,
}

/// The likely content of a segment.
#[derive(Debug, Clone, Copy, PartialEq, Eq, Structural)]
pub enum SuggestedSegmentContentKind {
    Unknown,
    Talk,
    Advertisement,
    Music,
}

/// Lower-case name of a kind.
pub open spec fn kind_text(k: SuggestedSegmentContentKind) -> Seq<char> {
    match k {
        SuggestedSegmentContentKind::Unknown => "none"@,
        SuggestedSegmentContentKind::Talk => "talk"@,
        SuggestedSegmentContentKind::Advertisement => "advertisement"@,
        SuggestedSegmentContentKind::Music => "music"@,
    }
}

impl SuggestedSegmentContentKind {
    /// Lower-case name of the kind.
    pub fn as_str(&self) -> (r: &'static str)
        ensures
            r@ == kind_text(*self),
    {
        match self {
            SuggestedSegmentContentKind::Unknown => "none",
            SuggestedSegmentContentKind::Talk => "talk",
            SuggestedSegmentContentKind::Advertisement => "advertisement",
            SuggestedSegmentContentKind::Music => "music",
        }
    }

    /// Segments of every kind but `Unknown` are downloaded and inspected.
    pub fn wants_download(&self) -> (r: bool)
        ensures
            r == !(*self is Unknown),
    {
        !matches!(self, SuggestedSegmentContentKind::Unknown)
    }
}

/// The fixed texts of the tag, in order: the `k`-th stands before field `k`
/// (fields count from 1), the last one closes field 14.
pub open spec fn tag_literal(k: int) -> Seq<char> {
    if k == 0 {
        "title=\""@
    } else if k == 1 {
        "\",artist=\""@
    } else if k == 2 {
        "\",url=\"song_spot=\\\""@
    } else if k == 3 {
        "\\\" MediaBaseId=\\\""@
    } else if k == 4 {
        "\\\" itunesTrackId=\\\""@
    } else if k == 5 {
        "\\\" amgTrackId=\\\""@
    } else if k == 6 {
        "\\\" amgArtistId=\\\""@
    } else if k == 7 {
        "\\\" TAID=\\\""@
    } else if k == 8 {
        "\\\" TPID=\\\""@
    } else if k == 9 {
        "\\\" cartcutId=\\\""@
    } else if k == 10 {
        "\\\" amgArtworkURL=\\\""@
    } else if k == 11 {
        "\\\" length=\\\""@
    } else if k == 12 {
        "\\\" unsID=\\\""@
    } else if k == 13 {
        "\\\" spotInstanceId=\\\""@
    } else {
        "\\\"\""@
    }
}

fn tag_literal_exec(k: usize) -> (r: &'static str)
    requires
        k < 15,
    ensures
        r@ == tag_literal(k as int),
{
    if k == 0 {
        "title=\""
    } else if k == 1 {
        "\",artist=\""
    } else if k == 2 {
        "\",url=\"song_spot=\\\""
    } else if k == 3 {
        "\\\" MediaBaseId=\\\""
    } else if k == 4 {
        "\\\" itunesTrackId=\\\""
    } else if k == 5 {
        "\\\" amgTrackId=\\\""
    } else if k == 6 {
        "\\\" amgArtistId=\\\""
    } else if k == 7 {
        "\\\" TAID=\\\""
    } else if k == 8 {
        "\\\" TPID=\\\""
    } else if k == 9 {
        "\\\" cartcutId=\\\""
    } else if k == 10 {
        "\\\" amgArtworkURL=\\\""
    } else if k == 11 {
        "\\\" length=\\\""
    } else if k == 12 {
        "\\\" unsID=\\\""
    } else if k == 13 {
        "\\\" spotInstanceId=\\\""
    } else {
        "\\\"\""
    }
}

/// Number of consecutive digits in `s` from index `from`.
pub open spec fn digit_run(s: Seq<char>, from: int) -> int
    decreases s.len() - from,
{
    if 0 <= from < s.len() && is_digit(s[from]) {
        1 + digit_run(s, from + 1)
    } else {
        0
    }
}

/// Length of the optional `offset=N,` prefix of a tag (0 when absent).
pub open spec fn offset_prefix_len(s: Seq<char>) -> int {
    let o = "offset="@;
    let n = digit_run(s, o.len() as int);
    if occurs_at(s, o, 0) && n > 0 && o.len() + n < s.len() && s[o.len() + n] == ',' {
        o.len() + n + 1
    } else {
        0
    }
}

/// Fields `k..14` of a tag whose field `k` starts at `pos`.
pub open spec fn fields_from(s: Seq<char>, pos: int, k: int) -> Option<Seq<Seq<char>>>
    decreases 15 - k,
{
    if k < 1 || k >= 15 {
        Some(Seq::empty())
    } else {
        match find_from_spec(s, tag_literal(k), pos) {
            None => None,
            Some(e) => match fields_from(s, e + tag_literal(k).len(), k + 1) {
                None => None,
                Some(rest) => Some(seq![s.subrange(pos, e)] + rest),
            },
        }
    }
}

/// The 14 raw fields of the tag `s`, or `None` when `s` is no tag.
pub open spec fn tag_fields(s: Seq<char>) -> Option<Seq<Seq<char>>> {
    let p = offset_prefix_len(s);
    if occurs_at(s, tag_literal(0), p) {
        fields_from(s, p + tag_literal(0).len(), 1)
    } else {
        None
    }
}

pub open spec fn char_views(v: Seq<Vec<char>>) -> Seq<Seq<char>> {
    Seq::new(v.len(), |i: int| v[i]@)
}

proof fn lemma_find_from_bounds(s: Seq<char>, pat: Seq<char>, from: int)
    ensures
        find_from_spec(s, pat, from) matches Some(e) ==> from <= e && e + pat.len() <= s.len()
            && occurs_at(s, pat, e),
    decreases s.len() - from,
{
    if !(from < 0 || from >= s.len() || from + pat.len() > s.len()) {
        if s.subrange(from, from + pat.len()) != pat {
            lemma_find_from_bounds(s, pat, from + 1);
        }
    }
}

fn digit_run_exec(s: &Vec<char>, from: usize) -> (r: usize)
    ensures
        r as int == digit_run(s@, from as int),
        from + r <= s@.len() || r == 0,
{
    let mut j = from;
    while j < s.len() && '0' <= s[j] && s[j] <= '9'
        invariant
            from <= j,
            j <= s@.len() || j == from,
            digit_run(s@, from as int) == (j - from) + digit_run(s@, j as int),
        decreases s@.len() - j,
    {
        j = j + 1;
    }
    j - from
}

fn offset_prefix_len_exec(s: &Vec<char>) -> (r: usize)
    ensures
        r as int == offset_prefix_len(s@),
{
    let o = chars_of("offset=");
    let n = digit_run_exec(s, o.len());
    if occurs_at_exec(s, &o, 0) && n > 0 && n < s.len() - o.len() && s[o.len() + n] == ',' {
        o.len() + n + 1
    } else {
        0
    }
}

/// Splits a tag into its 14 raw fields: title, artist, song_spot,
/// MediaBaseId, itunesTrackId, amgTrackId, amgArtistId, TAID, TPID,
/// cartcutId, amgArtworkURL, length, unsID, spotInstanceId.
pub fn split_tag(text: &str) -> (r: Option<Vec<Vec<char>>>)
    ensures
        match r {
            Some(v) => tag_fields(text@) == Some(char_views(v@)),
            None => tag_fields(text@) is None,
        },
{
    let s = chars_of(text);
    let p = offset_prefix_len_exec(&s);
    let lit0 = chars_of(tag_literal_exec(0));
    if !occurs_at_exec(&s, &lit0, p) {
        return None;
    }
    let mut pos = p + lit0.len();
    let mut k: usize = 1;
    let mut fields: Vec<Vec<char>> = Vec::new();
    let ghost mut acc: Seq<Seq<char>> = Seq::empty();
    let slen = s.len();
    while k < 15
        invariant
            slen == s@.len(),
            1 <= k <= 15,
            pos <= s@.len(),
            s@ == text@,
            char_views(fields@) == acc,
            tag_fields(s@) == match fields_from(s@, pos as int, k as int) {
                None => None,
                Some(rest) => Some(acc + rest),
            },
        decreases 15 - k,
    {
        let lit = chars_of(tag_literal_exec(k));
        proof {
            lemma_find_from_bounds(s@, lit@, pos as int);
        }
        match find_from(&s, &lit, pos) {
            None => {
                return None;
            },
            Some(e) => {
                let f = slice_chars(&s, pos, e);
                proof {
                    let rest = fields_from(s@, e + lit@.len(), k + 1);
                    if let Some(r) = rest {
                        assert(acc + (seq![f@] + r) =~= acc.push(f@) + r);
                    }
                    acc = acc.push(f@);
                }
                fields.push(f);
                assert(char_views(fields@) =~= acc);
                pos = e + lit.len();
                k = k + 1;
            },
        }
    }
    assert(acc + Seq::<Seq<char>>::empty() =~= acc);
    Some(fields)
}

/// The shape `dd:dd:dd` of the length field.
pub open spec fn is_clock_shape(s: Seq<char>) -> bool {
    &&& s.len() == 8
    &&& is_digit(s[0]) && is_digit(s[1]) && s[2] == ':'
    &&& is_digit(s[3]) && is_digit(s[4]) && s[5] == ':'
    &&& is_digit(s[6]) && is_digit(s[7])
}

/// Seconds from midnight to the clock time `HH:MM:SS`: hours up to 23,
/// minutes up to 59, seconds up to 60 (a leap second counts in full).
pub open spec fn clock_seconds(s: Seq<char>) -> Option<u64> {
    let h = digit_value(s[0]) * 10 + digit_value(s[1]);
    let m = digit_value(s[3]) * 10 + digit_value(s[4]);
    let sec = digit_value(s[6]) * 10 + digit_value(s[7]);
    if h <= 23 && m <= 59 && sec <= 60 {
        Some((h * 3600 + m * 60 + sec) as u64)
    } else {
        None
    }
}

/// Relies on chrono's `NaiveTime::parse_from_str` with `%H:%M:%S` and
/// `signed_duration_since` from midnight: on `dd:dd:dd` it accepts hours
/// 0..=23, minutes 0..=59 and seconds 0..=60, and the span from midnight
/// is a whole number of seconds.
#[verifier::external_body]
fn clock_text_seconds(text: &str) -> (r: Option<u64>)
    requires
        is_clock_shape(text@),
    ensures
        r == clock_seconds(text@),
{
    let time = chrono::NaiveTime::parse_from_str(text, "%H:%M:%S").ok()?;
    let span = time.signed_duration_since(chrono::NaiveTime::MIN).to_std().ok()?;
    Some(span.as_secs())
}

/// Whether the url crate accepts the text as a URL.
pub uninterp spec fn url_parses(s: Seq<char>) -> bool;

/// Relies on `reqwest::Url::parse` (the url crate's `Url`): whether the
/// text parses as an absolute URL. The answer depends on the text alone.
#[verifier::external_body]
fn parses_as_url(text: &str) -> (r: bool)
    ensures
        r == url_parses(text@),
{
    reqwest::Url::parse(text).is_ok()
}

/// The UUID that the uuid crate reads from the text, as a 128-bit value.
pub uninterp spec fn uuid_value(s: Seq<char>) -> Option<u128>;

/// Relies on uuid's `Uuid::try_parse` and `Uuid::as_u128`: the UUID
/// written in the text, if it is one. The answer depends on the text alone.
#[verifier::external_body]
fn parse_uuid(text: &str) -> (r: Option<u128>)
    ensures
        r == uuid_value(text@),
{
    match uuid::Uuid::try_parse(text) {
        Ok(u) => Some(u.as_u128()),
        Err(_) => None,
    }
}

/// Whether std counts the character as alphanumeric (a Unicode letter or
/// number).
pub uninterp spec fn alphanumeric(c: char) -> bool;

/// Relies on std's `char::is_alphanumeric`: true for characters with the
/// Unicode `Alphabetic` or `Numeric` property, among them every ASCII letter
/// and digit.
#[verifier::external_body]
fn is_alphanumeric_char(c: char) -> (r: bool)
    ensures
        r == alphanumeric(c),
        ('0' <= c && c <= '9') || ('A' <= c && c <= 'Z') || ('a' <= c && c <= 'z') ==> r,
{
    c.is_alphanumeric()
}

/// A character that `song_spot` may hold: a letter or digit in the
/// Unicode sense, or `_`.
pub open spec fn is_code_char(c: char) -> bool {
    alphanumeric(c) || c == '_'
}

/// The fields of a tag that decode: title, artist and spot instance id
/// non-empty, a one-character song spot code, the numeric fields
/// `-?\d+` within `i64`, and a valid `HH:MM:SS` length.
pub open spec fn fields_valid(f: Seq<Seq<char>>) -> bool {
    &&& f.len() == 14
    &&& f[0].len() > 0
    &&& f[1].len() > 0
    &&& f[2].len() == 1 && is_code_char(f[2][0])
    &&& decimal_i64(f[3]) is Some
    &&& decimal_i64(f[4]) is Some
    &&& decimal_i64(f[5]) is Some
    &&& decimal_i64(f[6]) is Some
    &&& decimal_i64(f[7]) is Some
    &&& decimal_i64(f[8]) is Some
    &&& decimal_i64(f[9]) is Some
    &&& is_clock_shape(f[11]) && clock_seconds(f[11]) is Some
    &&& decimal_i64(f[12]) is Some
    &&& f[13].len() > 0
}

/// Decoded metadata of one segment.
pub struct KostaRadioSegmentInfo {
    pub title: String,
    pub artist: String,
    pub song_spot: char,
    pub media_base_id: i64,
    pub itunes_track_id: i64,
    pub amg_track_id: i64,
    pub amg_artist_id: i64,
    pub ta_id: i64,
    pub tp_id: i64,
    pub cartcut_id: i64,
    /// The artwork URL text, present only when it parses as a URL.
    pub amg_artwork_url: Option<String>,
    /// Length in whole seconds.
    pub length: u64,
    pub uns_id: i64,
    /// The spot instance id, present only when it parses as a UUID.
    pub spot_instance_id: Option<u128>,
}

/// `info` is what the valid fields `f` decode to, given whether the artwork
/// field parses as a URL and which UUID the spot instance field holds.
pub open spec fn decodes_to(
    info: KostaRadioSegmentInfo,
    f: Seq<Seq<char>>,
    artwork_url_valid: bool,
    spot_instance_id: Option<u128>,
) -> bool {
    &&& info.title@ == f[0]
    &&& info.artist@ == f[1]
    &&& info.song_spot == f[2][0]
    &&& decimal_i64(f[3]) == Some(info.media_base_id)
    &&& decimal_i64(f[4]) == Some(info.itunes_track_id)
    &&& decimal_i64(f[5]) == Some(info.amg_track_id)
    &&& decimal_i64(f[6]) == Some(info.amg_artist_id)
    &&& decimal_i64(f[7]) == Some(info.ta_id)
    &&& decimal_i64(f[8]) == Some(info.tp_id)
    &&& decimal_i64(f[9]) == Some(info.cartcut_id)
    &&& match info.amg_artwork_url {
        Some(u) => artwork_url_valid && u@ == f[10],
        None => !artwork_url_valid,
    }
    &&& clock_seconds(f[11]) == Some(info.length)
    &&& decimal_i64(f[12]) == Some(info.uns_id)
    &&& info.spot_instance_id == spot_instance_id
}

impl KostaRadioSegmentInfo {
    /// Music: song spot `M` or `F`, a positive length, and some catalogue
    /// reference (a media base id, an iTunes id, both AMG ids, or artwork).
    pub open spec fn music_rule(&self) -> bool {
        (self.song_spot == 'M' || self.song_spot == 'F') && self.length > 0 && (self.media_base_id
            > 0 || self.itunes_track_id > 0 || (self.amg_artist_id > 0 && self.amg_track_id > 0)
            || self.amg_artwork_url is Some)
    }

    /// Talk: song spot `T` with every reference zero or absent and no length.
    pub open spec fn talk_rule(&self) -> bool {
        &&& self.song_spot == 'T'
        &&& self.media_base_id == 0
        &&& self.itunes_track_id == 0
        &&& self.amg_artist_id == 0
        &&& self.amg_track_id == 0
        &&& self.ta_id == 0
        &&& self.tp_id == 0
        &&& self.amg_artwork_url is None
        &&& self.spot_instance_id is None
        &&& self.length == 0
    }

    /// Advertisement: song spot `F`, AMG track id -1, a spot instance id,
    /// and every other reference zero or absent.
    pub open spec fn advertisement_rule(&self) -> bool {
        &&& self.song_spot == 'F'
        &&& self.media_base_id == 0
        &&& self.itunes_track_id == 0
        &&& self.amg_artist_id == 0
        &&& self.amg_track_id == -1
        &&& self.ta_id == 0
        &&& self.tp_id == 0
        &&& self.cartcut_id == 0
        &&& self.amg_artwork_url is None
        &&& self.spot_instance_id is Some
    }

    /// The rules in order, the first that holds deciding.
    pub open spec fn kind_spec(&self) -> SuggestedSegmentContentKind {
        if self.music_rule() {
            SuggestedSegmentContentKind::Music
        } else if self.talk_rule() {
            SuggestedSegmentContentKind::Talk
        } else if self.advertisement_rule() {
            SuggestedSegmentContentKind::Advertisement
        } else {
            SuggestedSegmentContentKind::Unknown
        }
    }

    pub fn is_music(&self) -> (r: bool)
        ensures
            r == self.music_rule(),
    {
        (self.song_spot == 'M' || self.song_spot == 'F') && self.length > 0 && (self.media_base_id
            > 0 || self.itunes_track_id > 0 || (self.amg_artist_id > 0 && self.amg_track_id > 0)
            || self.amg_artwork_url.is_some())
    }

    pub fn is_talk(&self) -> (r: bool)
        ensures
            r == self.talk_rule(),
    {
        self.song_spot == 'T' && self.media_base_id == 0 && self.itunes_track_id == 0
            && self.amg_artist_id == 0 && self.amg_track_id == 0 && self.ta_id == 0 && self.tp_id
            == 0 && self.amg_artwork_url.is_none() && self.spot_instance_id.is_none() && self.length
            == 0
    }

    pub fn is_advertisment(&self) -> (r: bool)
        ensures
            r == self.advertisement_rule(),
    {
        self.song_spot == 'F' && self.media_base_id == 0 && self.itunes_track_id == 0
            && self.amg_artist_id == 0 && self.amg_track_id == -1 && self.ta_id == 0 && self.tp_id
            == 0 && self.cartcut_id == 0 && self.amg_artwork_url.is_none()
            && self.spot_instance_id.is_some()
    }

    pub fn suggested_content_kind(&self) -> (r: SuggestedSegmentContentKind)
        ensures
            r == self.kind_spec(),
    {
        if self.is_music() {
            return SuggestedSegmentContentKind::Music;
        }
        if self.is_talk() {
            return SuggestedSegmentContentKind::Talk;
        }
        if self.is_advertisment() {
            return SuggestedSegmentContentKind::Advertisement;
        }
        SuggestedSegmentContentKind::Unknown
    }

    /// Decodes the 14 raw fields of a tag, given whether the artwork field
    /// parses as a URL and the UUID (if any) of the spot instance field.
    pub fn from_fields(
        f: &Vec<Vec<char>>,
        artwork_url_valid: bool,
        spot_instance_id: Option<u128>,
    ) -> (r: Result<Self, ParseError>)
        ensures
            r is Ok <==> fields_valid(char_views(f@)),
            r matches Ok(info) ==> decodes_to(
                info,
                char_views(f@),
                artwork_url_valid,
                spot_instance_id,
            ),
            r is Err ==> r == Err::<Self, ParseError>(ParseError::Malformed),
    {
        let ghost g = char_views(f@);
        if f.len() != 14 {
            return Err(ParseError::Malformed);
        }
        assert(forall|i: int| 0 <= i < 14 ==> #[trigger] g[i] == f@[i]@);
        if f[0].len() == 0 || f[1].len() == 0 || f[13].len() == 0 || f[2].len() != 1 {
            return Err(ParseError::Malformed);
        }
        let c = f[2][0];
        if !(c == '_' || is_alphanumeric_char(c)) {
            return Err(ParseError::Malformed);
        }
        let media_base_id = match parse_i64(&f[3]) {
            Some(v) => v,
            None => return Err(ParseError::Malformed),
        };
        let itunes_track_id = match parse_i64(&f[4]) {
            Some(v) => v,
            None => return Err(ParseError::Malformed),
        };
        let amg_track_id = match parse_i64(&f[5]) {
            Some(v) => v,
            None => return Err(ParseError::Malformed),
        };
        let amg_artist_id = match parse_i64(&f[6]) {
            Some(v) => v,
            None => return Err(ParseError::Malformed),
        };
        let ta_id = match parse_i64(&f[7]) {
            Some(v) => v,
            None => return Err(ParseError::Malformed),
        };
        let tp_id = match parse_i64(&f[8]) {
            Some(v) => v,
            None => return Err(ParseError::Malformed),
        };
        let cartcut_id = match parse_i64(&f[9]) {
            Some(v) => v,
            None => return Err(ParseError::Malformed),
        };
        let uns_id = match parse_i64(&f[12]) {
            Some(v) => v,
            None => return Err(ParseError::Malformed),
        };
        let l = &f[11];
        if !(l.len() == 8 && '0' <= l[0] && l[0] <= '9' && '0' <= l[1] && l[1] <= '9' && l[2]
            == ':' && '0' <= l[3] && l[3] <= '9' && '0' <= l[4] && l[4] <= '9' && l[5] == ':'
            && '0' <= l[6] && l[6] <= '9' && '0' <= l[7] && l[7] <= '9') {
            return Err(ParseError::Malformed);
        }
        let length_text = string_of(l);
        let length = match clock_text_seconds(length_text.as_str()) {
            Some(v) => v,
            None => return Err(ParseError::Malformed),
        };
        let amg_artwork_url = if artwork_url_valid {
            Some(string_of(&f[10]))
        } else {
            None
        };
        Ok(KostaRadioSegmentInfo {
            title: string_of(&f[0]),
            artist: string_of(&f[1]),
            song_spot: c,
            media_base_id,
            itunes_track_id,
            amg_track_id,
            amg_artist_id,
            ta_id,
            tp_id,
            cartcut_id,
            amg_artwork_url,
            length,
            uns_id,
            spot_instance_id,
        })
    }

    /// Parses a metadata tag into a decoded record.
    pub fn parse(text: &str) -> (r: Result<Self, ParseError>)
        ensures
            match tag_fields(text@) {
                None => r == Err::<Self, ParseError>(ParseError::Malformed),
                Some(f) => {
                    &&& r is Ok <==> fields_valid(f)
                    &&& r matches Ok(info) ==> decodes_to(
                        info,
                        f,
                        url_parses(f[10]),
                        uuid_value(f[13]),
                    )
                    &&& r is Err ==> r == Err::<Self, ParseError>(ParseError::Malformed)
                },
            },
    {
        let f = match split_tag(text) {
            Some(f) => f,
            None => return Err(ParseError::Malformed),
        };
        if f.len() != 14 {
            return Err(ParseError::Malformed);
        }
        assert(char_views(f@)[10] == f@[10]@ && char_views(f@)[13] == f@[13]@);
        let artwork = string_of(&f[10]);
        let spot = string_of(&f[13]);
        let artwork_url_valid = parses_as_url(artwork.as_str());
        let spot_instance_id = parse_uuid(spot.as_str());
        Self::from_fields(&f, artwork_url_valid, spot_instance_id)
    }
}

/// The tag `t` splits into fields that decode.
pub open spec fn tag_decodes(t: Seq<char>) -> bool {
    tag_fields(t) matches Some(f) && fields_valid(f)
}

/// What the intake does with one segment: its artist and title, its
/// likely kind, and the decoded record when the tag decoded.
pub struct SegmentDecision {
    pub artist: String,
    pub title: String,
    pub kind: SuggestedSegmentContentKind,
    pub info: Option<KostaRadioSegmentInfo>,
}

/// Classifies a segment by its metadata text. A tag that decodes is
/// classified by the rules; otherwise a text holding `adContext=` is an
/// advertisement named "Advertisement"; otherwise the segment is skipped.
pub fn classify_segment(metadata: Option<&str>) -> (r: Result<SegmentDecision, ParseError>)
    ensures
        metadata is None ==> r == Err::<SegmentDecision, ParseError>(ParseError::NoMetadata),
        metadata matches Some(t) ==> if tag_decodes(t@) {
            let f = tag_fields(t@)->0;
            &&& r matches Ok(d)
            &&& d.info matches Some(info)
            &&& decodes_to(info, f, url_parses(f[10]), uuid_value(f[13]))
            &&& d.kind == info.kind_spec()
            &&& d.title@ == f[0]
            &&& d.artist@ == f[1]
        } else if contains_spec(t@, "adContext="@) {
            &&& r matches Ok(d)
            &&& d.info is None
            &&& d.kind == SuggestedSegmentContentKind::Advertisement
            &&& d.artist@ == "Advertisement"@
            &&& d.title@ == "Advertisement"@
        } else {
            r == Err::<SegmentDecision, ParseError>(ParseError::Malformed)
        },
{
    let text = match metadata {
        Some(t) => t,
        None => return Err(ParseError::NoMetadata),
    };
    match KostaRadioSegmentInfo::parse(text) {
        Ok(info) => {
            let kind = info.suggested_content_kind();
            let artist = info.artist.clone();
            let title = info.title.clone();
            Ok(SegmentDecision { artist, title, kind, info: Some(info) })
        },
        Err(_) => {
            let chars = chars_of(text);
            let marker = chars_of("adContext=");
            if find_from(&chars, &marker, 0).is_some() {
                Ok(
                    SegmentDecision {
                        artist: "Advertisement".to_owned(),
                        title: "Advertisement".to_owned(),
                        kind: SuggestedSegmentContentKind::Advertisement,
                        info: None,
                    },
                )
            } else {
                Err(ParseError::Malformed)
            }
        },
    }
}

} // verus!
